//! Mermaid diagrams: classes with their members and relations, and the
//! runtime dependencies of each crate.

use vstd::prelude::*;

use crate::ir::{
    spec_stable_key, symbol_views, ReferenceKind, ReferenceTargetView, ReferenceView, Symbol,
    SymbolKind, SymbolView, Reference, ManifestInfo, DependencyScope, Visibility, reference_views,
};
use crate::graph::{
    firsts, indices_below, lemma_indices_below_bound, lemma_neighbors_bound, neighbors_of, CodeGraph,
    CodeGraphNode, GraphDirection, GraphView, NodeTag, NodeView,
};
use crate::manifest::{dep_views, DependencyView, ManifestView};
use crate::paths::{lemma_rfind_before_bounds, parent_file_name, parent_file_name_vec};
use crate::text::{
    lemma_strip_prefixes_bounds, lemma_strip_suffixes_bounds, matches_at, strip_prefixes_from, strip_suffixes_before,
    append_str, append_vec, chars_of, copy_vec, decimal, decimal_vec, eq_vec, rfind, rfind_vec, single, subvec, views, split_last, split_last_vec, string_of,
    trim_end_matches, trim_end_matches_vec, trim_start_matches, trim_start_matches_vec,
};

verus! {

/// Draws Mermaid diagrams.
pub struct DiagramGenerator;

// ---------------------------------------------------------------------------
// Identifiers
// ---------------------------------------------------------------------------

/// `char::is_alphanumeric`: alphabetic or numeric in Unicode.
pub uninterp spec fn is_alphanumeric(c: char) -> bool;

/// `char::is_alphanumeric`. Its result is the Unicode property; among ASCII
/// characters it holds exactly of letters and digits.
#[verifier::external_body]
pub(crate) fn char_is_alphanumeric(c: char) -> (r: bool)
    ensures
        r == is_alphanumeric(c),
        (c as u32) < 128 ==> (r <==> (('a' <= c && c <= 'z') || ('A' <= c && c <= 'Z') || ('0' <= c && c <= '9'))),
{
    c.is_alphanumeric()
}

pub open spec fn id_char(c: char) -> char {
    if is_alphanumeric(c) || c == '_' {
        c
    } else {
        '_'
    }
}

/// A Mermaid node id: every character that is neither alphanumeric nor `_`
/// replaced by `_`, leading and trailing `_` removed.
pub open spec fn mermaid_id(s: Seq<char>) -> Seq<char> {
    trim_end_matches(trim_start_matches(Seq::new(s.len(), |i: int| id_char(s[i])), "_"@), "_"@)
}

pub fn sanitize_mermaid_id(id: &Vec<char>) -> (r: Vec<char>)
    ensures
        r@ == mermaid_id(id@),
{
    let mut v: Vec<char> = Vec::new();
    let mut k: usize = 0;
    while k < id.len()
        invariant
            k <= id.len(),
            v@ == Seq::new(k as nat, |i: int| id_char(id@[i])),
        decreases id.len() - k,
    {
        let c = id[k];
        if char_is_alphanumeric(c) || c == '_' {
            v.push(c);
        } else {
            v.push('_');
        }
        k = k + 1;
        assert(v@ =~= Seq::new(k as nat, |i: int| id_char(id@[i])));
    }
    let us = chars_of("_");
    let a = trim_start_matches_vec(&v, &us);
    trim_end_matches_vec(&a, &us)
}

// ---------------------------------------------------------------------------
// Class diagrams
// ---------------------------------------------------------------------------

pub open spec fn is_class_like(k: SymbolKind) -> bool {
    k == SymbolKind::Struct || k == SymbolKind::Trait || k == SymbolKind::Class || k == SymbolKind::Interface
        || k == SymbolKind::Enum
}

/// The last `::`-separated piece of a qualified name.
pub open spec fn short_name(q: Seq<char>) -> Seq<char> {
    split_last(q, "::"@)
}

pub open spec fn stereotype(k: SymbolKind) -> Seq<char> {
    if k == SymbolKind::Trait || k == SymbolKind::Interface {
        "<<interface>>"@
    } else if k == SymbolKind::Enum {
        "<<enumeration>>"@
    } else {
        Seq::empty()
    }
}

pub open spec fn vis_sign(v: Visibility) -> Seq<char> {
    match v {
        Visibility::Public => "+"@,
        Visibility::Private => "-"@,
        Visibility::Protected => "#"@,
        Visibility::Internal => "~"@,
    }
}

/// Whether `s` is a method or field whose parent has the stable key of `owner`.
pub open spec fn is_member_of(s: SymbolView, owner: SymbolView) -> bool {
    &&& s.parent is Some
    &&& spec_stable_key(s.parent.unwrap().file_path, s.parent.unwrap().start_byte, s.parent.unwrap().end_byte, s.parent.unwrap().kind)
        == spec_stable_key(owner.id.file_path, owner.id.start_byte, owner.id.end_byte, owner.id.kind)
    &&& (s.kind == SymbolKind::Method || s.kind == SymbolKind::Field)
}

/// The first `n` class-like symbols from `k` on.
pub open spec fn first_class_like(s: Seq<SymbolView>, k: int, n: int) -> Seq<SymbolView>
    decreases s.len() - k,
{
    if k < 0 || k >= s.len() || n <= 0 {
        Seq::empty()
    } else if is_class_like(s[k].kind) {
        seq![s[k]] + first_class_like(s, k + 1, n - 1)
    } else {
        first_class_like(s, k + 1, n)
    }
}

/// The first `n` members of `owner` from `k` on.
pub open spec fn first_members(s: Seq<SymbolView>, owner: SymbolView, k: int, n: int) -> Seq<SymbolView>
    decreases s.len() - k,
{
    if k < 0 || k >= s.len() || n <= 0 {
        Seq::empty()
    } else if is_member_of(s[k], owner) {
        seq![s[k]] + first_members(s, owner, k + 1, n - 1)
    } else {
        first_members(s, owner, k + 1, n)
    }
}

/// One line per member: visibility sign and short name.
pub open spec fn member_lines(kids: Seq<SymbolView>) -> Seq<char>
    decreases kids.len(),
{
    if kids.len() == 0 {
        Seq::empty()
    } else {
        member_lines(kids.drop_last()) + "        "@ + vis_sign(kids.last().visibility) + short_name(kids.last().qualified_name) + "\n"@
    }
}

/// The lines of one class: its declaration (with its stereotype), then its
/// first ten members.
pub open spec fn class_block(sym: SymbolView, all: Seq<SymbolView>) -> Seq<char> {
    let short = short_name(sym.qualified_name);
    let st = stereotype(sym.kind);
    let head = if st.len() > 0 {
        "    class "@ + short + " {\n"@ + "        "@ + st + "\n"@ + "    }\n"@
    } else {
        "    class "@ + short + "\n"@
    };
    let kids = first_members(all, sym, 0, 10);
    head + if kids.len() > 0 {
        "    class "@ + short + " {\n"@ + member_lines(kids) + "    }\n"@
    } else {
        Seq::empty()
    }
}

pub open spec fn class_blocks(classes: Seq<SymbolView>, all: Seq<SymbolView>) -> Seq<char>
    decreases classes.len(),
{
    if classes.len() == 0 {
        Seq::empty()
    } else {
        class_blocks(classes.drop_last(), all) + class_block(classes.last(), all)
    }
}

/// The short name a reference points at.
pub open spec fn target_short(t: ReferenceTargetView) -> Seq<char> {
    match t {
        ReferenceTargetView::Resolved(id) => short_name(id.qualified_name),
        ReferenceTargetView::Unresolved(n) => short_name(n),
    }
}

/// One line per `Implements` or `Extends` reference.
pub open spec fn relation_lines(refs: Seq<ReferenceView>) -> Seq<char>
    decreases refs.len(),
{
    if refs.len() == 0 {
        Seq::empty()
    } else {
        let r = refs.last();
        relation_lines(refs.drop_last()) + if r.kind == ReferenceKind::Implements || r.kind == ReferenceKind::Extends {
            "    "@ + short_name(r.source.qualified_name) + " "@
                + (if r.kind == ReferenceKind::Implements { "..|>"@ } else { "--|>"@ }) + " "@ + target_short(r.target) + "\n"@
        } else {
            Seq::empty()
        }
    }
}

/// The class diagram: the first thirty class-like symbols with their members,
/// then the implementation and inheritance relations.
pub open spec fn class_diagram_text(syms: Seq<SymbolView>, refs: Seq<ReferenceView>) -> Seq<char> {
    "classDiagram\n"@ + class_blocks(first_class_like(syms, 0, 30), syms) + relation_lines(refs)
}

fn short_name_vec(q: &str) -> (r: Vec<char>)
    ensures
        r@ == short_name(q@),
{
    let v = chars_of(q);
    let sep = chars_of("::");
    proof { reveal_strlit("::"); }
    split_last_vec(&v, &sep)
}

fn key_chars(s: &Symbol) -> (r: Vec<char>)
    ensures
        r@ == spec_stable_key(s@.id.file_path, s@.id.start_byte, s@.id.end_byte, s@.id.kind),
{
    let k = s.id.stable_key();
    chars_of(k.as_str())
}

#[verifier::rlimit(40)]
fn class_block_exec(symbols: &[Symbol], k: usize, out: &mut Vec<char>)
    requires
        k < symbols@.len(),
    ensures
        final(out)@ == old(out)@ + class_block(symbol_views(symbols@)[k as int], symbol_views(symbols@)),
{
    let ghost all = symbol_views(symbols@);
    let sym = &symbols[k];
    assert(all[k as int] == sym@);
    let short = short_name_vec(sym.qualified_name.as_str());
    let st: &str = match sym.kind {
        SymbolKind::Trait | SymbolKind::Interface => "<<interface>>",
        SymbolKind::Enum => "<<enumeration>>",
        _ => "",
    };
    let ghost o0 = out@;
    let has_st = matches!(sym.kind, SymbolKind::Trait | SymbolKind::Interface | SymbolKind::Enum);
    proof {
        reveal_strlit("<<interface>>");
        reveal_strlit("<<enumeration>>");
    }
    if has_st {
        append_str(out, "    class ");
        append_vec(out, &short);
        append_str(out, " {\n");
        append_str(out, "        ");
        append_str(out, st);
        append_str(out, "\n");
        append_str(out, "    }\n");
    } else {
        append_str(out, "    class ");
        append_vec(out, &short);
        append_str(out, "\n");
    }
    let ghost o1 = out@;
    let owner_key = key_chars(sym);
    let mut body: Vec<char> = Vec::new();
    let mut count: usize = 0;
    let mut m: usize = 0;
    let ghost sv = sym@;
    let ghost mut found: Seq<SymbolView> = Seq::empty();
    while m < symbols.len() && count < 10
        invariant
            m <= symbols@.len(),
            all == symbol_views(symbols@),
            sv == all[k as int],
            owner_key@ == spec_stable_key(sv.id.file_path, sv.id.start_byte, sv.id.end_byte, sv.id.kind),
            count == found.len(),
            count <= 10,
            found + first_members(all, sv, m as int, 10 - count) == first_members(all, sv, 0, 10),
            body@ == member_lines(found),
        decreases symbols@.len() - m,
    {
        let s = &symbols[m];
        assert(all[m as int] == s@);
        let is_member = match &s.parent {
            Some(p) => {
                let pk = chars_of(p.stable_key().as_str());
                eq_vec(&pk, &owner_key) && matches!(s.kind, SymbolKind::Method | SymbolKind::Field)
            },
            None => false,
        };
        if is_member {
            let sign: &str = match s.visibility {
                Visibility::Public => "+",
                Visibility::Private => "-",
                Visibility::Protected => "#",
                Visibility::Internal => "~",
            };
            let ghost b0 = body@;
            append_str(&mut body, "        ");
            append_str(&mut body, sign);
            let cs = short_name_vec(s.qualified_name.as_str());
            append_vec(&mut body, &cs);
            append_str(&mut body, "\n");
            proof {
                let nf = found.push(s@);
                assert(nf.drop_last() =~= found);
                assert(found + (seq![s@] + first_members(all, sv, m as int + 1, 10 - count - 1)) =~= nf + first_members(all, sv, m as int + 1, 10 - count - 1));
                found = nf;
            }
            count = count + 1;
        }
        m = m + 1;
    }
    proof {
        assert(first_members(all, sv, m as int, 10 - count) =~= Seq::<SymbolView>::empty());
        assert(found =~= first_members(all, sv, 0, 10));
    }
    if count > 0 {
        append_str(out, "    class ");
        append_vec(out, &short);
        append_str(out, " {\n");
        append_vec(out, &body);
        append_str(out, "    }\n");
    }
    assert(out@ =~= o0 + class_block(sv, all));
}

impl DiagramGenerator {
    /// The class diagram of the symbols and references.
    pub fn class_diagram(symbols: &[Symbol], references: &[Reference]) -> (r: String)
        ensures
            r@ == class_diagram_text(symbol_views(symbols@), reference_views(references@)),
    {
        let ghost all = symbol_views(symbols@);
        let mut out = chars_of("classDiagram\n");
        let ghost head = out@;
        let mut taken: usize = 0;
        let mut k: usize = 0;
        let ghost mut classes: Seq<SymbolView> = Seq::empty();
        while k < symbols.len() && taken < 30
            invariant
                k <= symbols@.len(),
                all == symbol_views(symbols@),
                head == "classDiagram\n"@,
                taken == classes.len(),
                taken <= 30,
                classes + first_class_like(all, k as int, 30 - taken) == first_class_like(all, 0, 30),
                out@ == head + class_blocks(classes, all),
            decreases symbols@.len() - k,
        {
            assert(all[k as int] == symbols@[k as int]@);
            if matches!(symbols[k].kind, SymbolKind::Struct | SymbolKind::Trait | SymbolKind::Class | SymbolKind::Interface | SymbolKind::Enum) {
                class_block_exec(symbols, k, &mut out);
                proof {
                    let nc = classes.push(all[k as int]);
                    assert(nc.drop_last() =~= classes);
                    assert(classes + (seq![all[k as int]] + first_class_like(all, k as int + 1, 30 - taken - 1)) =~= nc + first_class_like(all, k as int + 1, 30 - taken - 1));
                    classes = nc;
                }
                taken = taken + 1;
            }
            k = k + 1;
        }
        proof {
            assert(first_class_like(all, k as int, 30 - taken) =~= Seq::<SymbolView>::empty());
            assert(classes =~= first_class_like(all, 0, 30));
        }
        let ghost rv = reference_views(references@);
        let mut j: usize = 0;
        while j < references.len()
            invariant
                j <= references@.len(),
                rv == reference_views(references@),
                out@ == head + class_blocks(first_class_like(all, 0, 30), all) + relation_lines(rv.take(j as int)),
            decreases references@.len() - j,
        {
            let r = &references[j];
            assert(rv.take(j + 1).drop_last() =~= rv.take(j as int));
            assert(rv[j as int] == r@);
            let ghost o = out@;
            if matches!(r.kind, ReferenceKind::Implements | ReferenceKind::Extends) {
                let src = short_name_vec(r.source.qualified_name());
                let tgt = match &r.target {
                    crate::ir::ReferenceTarget::Resolved(id) => short_name_vec(id.qualified_name()),
                    crate::ir::ReferenceTarget::Unresolved(n) => short_name_vec(n.as_str()),
                };
                let arrow: &str = if matches!(r.kind, ReferenceKind::Implements) { "..|>" } else { "--|>" };
                append_str(&mut out, "    ");
                append_vec(&mut out, &src);
                append_str(&mut out, " ");
                append_str(&mut out, arrow);
                append_str(&mut out, " ");
                append_vec(&mut out, &tgt);
                append_str(&mut out, "\n");
                assert(out@ =~= o + ("    "@ + short_name(r@.source.qualified_name) + " "@
                    + (if r@.kind == ReferenceKind::Implements { "..|>"@ } else { "--|>"@ }) + " "@ + target_short(r@.target) + "\n"@));
            } else {
                assert(out@ =~= o + Seq::<char>::empty());
            }
            j = j + 1;
        }
        assert(rv.take(j as int) =~= rv);
        string_of(out.as_slice())
    }

    /// The runtime dependencies of each crate (its first fifteen), drawn from
    /// the crate's directory name.
    pub fn crate_dependency_diagram(manifests: &[ManifestInfo]) -> (r: String)
        ensures
            r@ == crate_diagram_text(manifests@),
    {
        let mut out = chars_of("graph TD\n");
        let mut k: usize = 0;
        while k < manifests.len()
            invariant
                k <= manifests@.len(),
                out@ == "graph TD\n"@ + crate_lines(manifests@.take(k as int)),
            decreases manifests@.len() - k,
        {
            assert(manifests@.take(k + 1).drop_last() =~= manifests@.take(k as int));
            let m = &manifests[k];
            let src = chars_of(m.source_file.as_str());
            let name = match parent_file_name_vec(&src) {
                Some(n) => n,
                None => chars_of("unknown"),
            };
            let safe = sanitize_mermaid_id(&name);
            let ghost o = out@;
            let ghost deps = dep_views(m.dependencies@);
            let mut taken: usize = 0;
            let mut j: usize = 0;
            let ghost mut done: Seq<DependencyView> = Seq::empty();
            while j < m.dependencies.len() && taken < 15
                invariant
                    j <= m.dependencies@.len(),
                    deps == dep_views(m.dependencies@),
                    taken == done.len(),
                    taken <= 15,
                    done + first_runtime(deps, j as int, 15 - taken) == first_runtime(deps, 0, 15),
                    out@ == o + dep_lines(safe@, done),
                decreases m.dependencies@.len() - j,
            {
                let d = &m.dependencies[j];
                assert(deps[j as int] == d@);
                if matches!(d.scope, DependencyScope::Runtime) {
                    let ghost o2 = out@;
                    let dn = chars_of(d.name.as_str());
                    let did = sanitize_mermaid_id(&dn);
                    append_str(&mut out, "    ");
                    append_vec(&mut out, &safe);
                    append_str(&mut out, " --> ");
                    append_vec(&mut out, &did);
                    append_str(&mut out, "[");
                    append_vec(&mut out, &dn);
                    append_str(&mut out, "]\n");
                    proof {
                        let nd = done.push(d@);
                        assert(nd.drop_last() =~= done);
                        assert(out@ =~= o + dep_lines(safe@, nd));
                        assert(done + (seq![d@] + first_runtime(deps, j as int + 1, 15 - taken - 1)) =~= nd + first_runtime(deps, j as int + 1, 15 - taken - 1));
                        done = nd;
                    }
                    taken = taken + 1;
                }
                j = j + 1;
            }
            proof {
                assert(first_runtime(deps, j as int, 15 - taken) =~= Seq::<DependencyView>::empty());
                assert(done =~= first_runtime(deps, 0, 15));
                reveal_strlit("unknown");
            }
            k = k + 1;
        }
        assert(manifests@.take(k as int) =~= manifests@);
        string_of(out.as_slice())
    }
}

// ---------------------------------------------------------------------------
// Crate dependency diagrams
// ---------------------------------------------------------------------------

/// The first `n` runtime dependencies from `k` on.
pub open spec fn first_runtime(deps: Seq<DependencyView>, k: int, n: int) -> Seq<DependencyView>
    decreases deps.len() - k,
{
    if k < 0 || k >= deps.len() || n <= 0 {
        Seq::empty()
    } else if deps[k].scope == DependencyScope::Runtime {
        seq![deps[k]] + first_runtime(deps, k + 1, n - 1)
    } else {
        first_runtime(deps, k + 1, n)
    }
}

/// One edge per dependency, from the crate's node to the dependency's.
pub open spec fn dep_lines(crate_id: Seq<char>, deps: Seq<DependencyView>) -> Seq<char>
    decreases deps.len(),
{
    if deps.len() == 0 {
        Seq::empty()
    } else {
        dep_lines(crate_id, deps.drop_last()) + "    "@ + crate_id + " --> "@ + mermaid_id(deps.last().name) + "["@ + deps.last().name + "]\n"@
    }
}

/// The name a manifest's crate is drawn under: its directory's name.
pub open spec fn crate_name(source_file: Seq<char>) -> Seq<char> {
    match parent_file_name(source_file) {
        Some(n) => n,
        None => "unknown"@,
    }
}

pub open spec fn crate_lines(ms: Seq<ManifestInfo>) -> Seq<char>
    decreases ms.len(),
{
    if ms.len() == 0 {
        Seq::empty()
    } else {
        crate_lines(ms.drop_last())
            + dep_lines(mermaid_id(crate_name(ms.last().source_file@)), first_runtime(dep_views(ms.last().dependencies@), 0, 15))
    }
}

/// The crate dependency diagram.
pub open spec fn crate_diagram_text(ms: Seq<ManifestInfo>) -> Seq<char> {
    "graph TD\n"@ + crate_lines(ms)
}

// ---------------------------------------------------------------------------
// API flow diagrams
// ---------------------------------------------------------------------------

/// At most the first `n` items.
pub open spec fn first_n<T>(s: Seq<T>, n: int) -> Seq<T> {
    if s.len() <= n { s } else { s.take(n) }
}

/// One edge from an endpoint's node to each symbol among `hs`.
pub open spec fn handler_lines(nodes: Seq<NodeView>, from: Seq<char>, hs: Seq<usize>) -> Seq<char>
    decreases hs.len(),
{
    if hs.len() == 0 {
        Seq::empty()
    } else {
        handler_lines(nodes, from, hs.drop_last()) + match nodes[hs.last() as int] {
            NodeView::Symbol { qualified_name, .. } => "    "@ + from + " --> "@ + mermaid_id(qualified_name) + "["@
                + short_name(qualified_name) + "]\n"@,
            _ => Seq::empty(),
        }
    }
}

/// The route line of an endpoint, `METHOD path`.
pub open spec fn route_line(id: Seq<char>, method: Seq<char>, path: Seq<char>) -> Seq<char> {
    "    ROUTER -->|\""@ + method + " "@ + path + "\"| "@ + id + "[\""@ + method + " "@ + path + "\"]\n"@
}

/// The lines of each endpoint: its route, then an edge to each of its handlers.
pub open spec fn endpoint_lines(g: GraphView, eps: Seq<usize>) -> Seq<char>
    decreases eps.len(),
{
    if eps.len() == 0 {
        Seq::empty()
    } else {
        endpoint_lines(g, eps.drop_last()) + match g.nodes[eps.last() as int] {
            NodeView::Endpoint { method, path } => {
                let id = mermaid_id(method + "_"@ + path);
                route_line(id, method, path) + handler_lines(g.nodes, id, neighbors_of(g.edges, eps.last(), GraphDirection::Outgoing))
            },
            _ => Seq::empty(),
        }
    }
}

/// The API flow diagram: a router node, the first twenty endpoints, and their
/// handlers.
pub open spec fn api_flow_text(g: GraphView) -> Seq<char> {
    "graph LR\n"@ + "    REQ[HTTP Request] --> ROUTER{Route Match}\n"@
        + endpoint_lines(g, first_n(indices_below(g.nodes, NodeTag::Endpoint, g.nodes.len() as int), 20))
}

fn handler_lines_exec(graph: &CodeGraph, from: &Vec<char>, idx: usize, out: &mut Vec<char>)
    requires
        graph@.wf(),
        idx < graph@.nodes.len(),
    ensures
        final(out)@ == old(out)@ + handler_lines(graph@.nodes, from@, neighbors_of(graph@.edges, idx, GraphDirection::Outgoing)),
{
    let hs = graph.neighbors(idx, GraphDirection::Outgoing);
    let ghost o = out@;
    proof { lemma_neighbors_bound(graph@.edges, idx, graph@.nodes.len()); }
    let mut j: usize = 0;
    while j < hs.len()
        invariant
            j <= hs@.len(),
            graph@.wf(),
            hs@ == neighbors_of(graph@.edges, idx, GraphDirection::Outgoing),
            forall|i: int| 0 <= i < hs@.len() ==> #[trigger] hs@[i] < graph@.nodes.len(),
            out@ == o + handler_lines(graph@.nodes, from@, hs@.take(j as int)),
        decreases hs@.len() - j,
    {
        let h = hs[j];
        assert(hs@.take(j + 1).drop_last() =~= hs@.take(j as int));
        assert(hs@[j as int] < graph@.nodes.len());
        let w = graph.node(h);
        let ghost o2 = out@;
        match w {
            CodeGraphNode::SymbolNode(d) => {
                let q = chars_of(d.qualified_name.as_str());
                let hid = sanitize_mermaid_id(&q);
                let short = short_name_vec(d.qualified_name.as_str());
                append_str(out, "    ");
                append_vec(out, from);
                append_str(out, " --> ");
                append_vec(out, &hid);
                append_str(out, "[");
                append_vec(out, &short);
                append_str(out, "]\n");
                assert(out@ =~= o2 + ("    "@ + from@ + " --> "@ + mermaid_id(d.qualified_name@) + "["@
                    + short_name(d.qualified_name@) + "]\n"@));
            },
            _ => {
                assert(out@ =~= o2 + Seq::<char>::empty());
            },
        }
        j = j + 1;
    }
    assert(hs@.take(j as int) =~= hs@);
}

impl DiagramGenerator {
    /// The API flow diagram of the graph.
    pub fn api_flow_diagram(graph: &CodeGraph) -> (r: String)
        requires
            graph@.wf(),
        ensures
            r@ == api_flow_text(graph@),
    {
        let mut out = chars_of("graph LR\n");
        append_str(&mut out, "    REQ[HTTP Request] --> ROUTER{Route Match}\n");
        let ghost head = out@;
        let eps = graph.endpoint_nodes();
        let ghost all = indices_below(graph@.nodes, NodeTag::Endpoint, graph@.nodes.len() as int);
        proof { lemma_indices_below_bound(graph@.nodes, NodeTag::Endpoint, graph@.nodes.len() as int); }
        let n: usize = if eps.len() < 20 { eps.len() } else { 20 };
        let ghost sel = first_n(all, 20);
        assert(sel =~= all.take(n as int));
        let mut k: usize = 0;
        while k < n
            invariant
                k <= n,
                n <= eps@.len(),
                graph@.wf(),
                firsts(eps@) == all,
                all == indices_below(graph@.nodes, NodeTag::Endpoint, graph@.nodes.len() as int),
                forall|i: int| 0 <= i < all.len() ==> #[trigger] all[i] < graph@.nodes.len(),
                forall|j: int| 0 <= j < eps@.len() ==> graph@.nodes[(#[trigger] eps@[j]).0 as int] == CodeGraphNode::EndpointNode(*eps@[j].1)@,
                out@ == head + endpoint_lines(graph@, all.take(k as int)),
            decreases n - k,
        {
            let (idx, data) = eps[k];
            assert(all[k as int] == idx);
            assert(all.take(k + 1).drop_last() =~= all.take(k as int));
            assert(graph@.nodes[idx as int] == CodeGraphNode::EndpointNode(*data)@);
            let ghost o = out@;
            let m = chars_of(data.method.as_str());
            let p = chars_of(data.path.as_str());
            let mut raw = m.clone();
            append_str(&mut raw, "_");
            append_vec(&mut raw, &p);
            let id = sanitize_mermaid_id(&raw);
            append_str(&mut out, "    ROUTER -->|\"");
            append_vec(&mut out, &m);
            append_str(&mut out, " ");
            append_vec(&mut out, &p);
            append_str(&mut out, "\"| ");
            append_vec(&mut out, &id);
            append_str(&mut out, "[\"");
            append_vec(&mut out, &m);
            append_str(&mut out, " ");
            append_vec(&mut out, &p);
            append_str(&mut out, "\"]\n");
            assert(out@ =~= o + route_line(id@, data.method@, data.path@));
            let ghost o2 = out@;
            handler_lines_exec(graph, &id, idx, &mut out);
            assert(out@ =~= o + (route_line(id@, data.method@, data.path@)
                + handler_lines(graph@.nodes, id@, neighbors_of(graph@.edges, idx, GraphDirection::Outgoing))));
            k = k + 1;
        }
        string_of(out.as_slice())
    }
}

// ---------------------------------------------------------------------------
// Module dependency diagrams
// ---------------------------------------------------------------------------

/// Whether a path has a directory part (a `/`).
pub open spec fn has_dir(p: Seq<char>) -> bool {
    rfind(p, "/"@) is Some
}

/// The module of a path: everything before its last `/`, or the whole path
/// when it has none.
pub open spec fn path_module(p: Seq<char>) -> Seq<char> {
    match rfind(p, "/"@) {
        Some(i) => p.take(i),
        None => p,
    }
}

/// Lexicographic order of character sequences from index `i` on, by code
/// point (the order of `String`s).
pub open spec fn lex_lt_from(a: Seq<char>, b: Seq<char>, i: int) -> bool
    decreases a.len() - i,
{
    if i < 0 || i >= a.len() {
        i < b.len()
    } else if i >= b.len() {
        false
    } else if a[i] != b[i] {
        (a[i] as int) < (b[i] as int)
    } else {
        lex_lt_from(a, b, i + 1)
    }
}

pub open spec fn lex_lt(a: Seq<char>, b: Seq<char>) -> bool {
    lex_lt_from(a, b, 0)
}

/// `x` put into the ordered list `s` before the first item above it, unless
/// it is there already.
pub open spec fn sorted_insert(s: Seq<Seq<char>>, x: Seq<char>) -> Seq<Seq<char>>
    decreases s.len(),
{
    if s.len() == 0 {
        seq![x]
    } else if s[0] == x {
        s
    } else if lex_lt(x, s[0]) {
        seq![x] + s
    } else {
        seq![s[0]] + sorted_insert(s.drop_first(), x)
    }
}

/// The distinct modules of the paths that have a directory part, in order.
pub open spec fn module_set(ps: Seq<Seq<char>>) -> Seq<Seq<char>>
    decreases ps.len(),
{
    if ps.len() == 0 {
        Seq::empty()
    } else if has_dir(ps.last()) {
        sorted_insert(module_set(ps.drop_last()), path_module(ps.last()))
    } else {
        module_set(ps.drop_last())
    }
}

/// The number of paths with a directory part whose module is `m`.
pub open spec fn module_file_count(ps: Seq<Seq<char>>, m: Seq<char>) -> nat
    decreases ps.len(),
{
    if ps.len() == 0 {
        0
    } else {
        module_file_count(ps.drop_last(), m) + if has_dir(ps.last()) && path_module(ps.last()) == m { 1nat } else { 0nat }
    }
}

pub open spec fn file_path_of(v: NodeView) -> Seq<char> {
    match v {
        NodeView::File { path, .. } => path,
        _ => Seq::empty(),
    }
}

/// The paths of the file nodes, in index order.
pub open spec fn file_paths(g: GraphView) -> Seq<Seq<char>> {
    let ix = indices_below(g.nodes, NodeTag::File, g.nodes.len() as int);
    Seq::new(ix.len(), |i: int| file_path_of(g.nodes[ix[i] as int]))
}

/// One node per module, labelled with its number of files.
pub open spec fn module_node_lines(ps: Seq<Seq<char>>, ms: Seq<Seq<char>>) -> Seq<char>
    decreases ms.len(),
{
    if ms.len() == 0 {
        Seq::empty()
    } else {
        let m = ms.last();
        module_node_lines(ps, ms.drop_last()) + "    "@ + mermaid_id(m) + "[\""@ + m + " ("@
            + decimal(module_file_count(ps, m)) + " files)\"]\n"@
    }
}

/// The edges from module `src` to the modules of the file nodes among `ts`,
/// where both are drawn and they differ.
pub open spec fn module_target_lines(nodes: Seq<NodeView>, ms: Seq<Seq<char>>, src: Seq<char>, ts: Seq<usize>) -> Seq<char>
    decreases ts.len(),
{
    if ts.len() == 0 {
        Seq::empty()
    } else {
        module_target_lines(nodes, ms, src, ts.drop_last()) + match nodes[ts.last() as int] {
            NodeView::File { path, .. } => {
                let tg = path_module(path);
                if src != tg && ms.contains(src) && ms.contains(tg) {
                    "    "@ + mermaid_id(src) + " --> "@ + mermaid_id(tg) + "\n"@
                } else {
                    Seq::empty()
                }
            },
            _ => Seq::empty(),
        }
    }
}

/// The module edges of each file node among `fs`.
pub open spec fn module_edge_lines(g: GraphView, ms: Seq<Seq<char>>, fs: Seq<usize>) -> Seq<char>
    decreases fs.len(),
{
    if fs.len() == 0 {
        Seq::empty()
    } else {
        module_edge_lines(g, ms, fs.drop_last()) + module_target_lines(
            g.nodes,
            ms,
            path_module(file_path_of(g.nodes[fs.last() as int])),
            neighbors_of(g.edges, fs.last(), GraphDirection::Outgoing),
        )
    }
}

/// The module dependency diagram: the first thirty modules in order, with
/// their file counts, and an edge wherever a file links to a file of another
/// drawn module.
pub open spec fn module_diagram_text(g: GraphView) -> Seq<char> {
    let ps = file_paths(g);
    let ms = first_n(module_set(ps), 30);
    "graph TD\n"@ + module_node_lines(ps, ms) + module_edge_lines(g, ms, indices_below(g.nodes, NodeTag::File, g.nodes.len() as int))
}

fn path_module_vec(p: &Vec<char>) -> (r: Vec<char>)
    ensures
        r@ == path_module(p@),
        has_dir(p@) == (rfind(p@, "/"@) is Some),
{
    let sl = single('/');
    proof { reveal_strlit("/"); lemma_rfind_before_bounds(p@, "/"@, p@.len() as int); }
    assert(sl@ =~= "/"@);
    match rfind_vec(p, &sl) {
        Some(i) => subvec(p, 0, i),
        None => copy_vec(p),
    }
}

fn lex_lt_vec(a: &Vec<char>, b: &Vec<char>) -> (r: bool)
    ensures
        r == lex_lt(a@, b@),
{
    let mut i: usize = 0;
    while i < a.len() && i < b.len() && a[i] == b[i]
        invariant
            i <= a.len(),
            lex_lt_from(a@, b@, i as int) == lex_lt(a@, b@),
        decreases a.len() - i,
    {
        i = i + 1;
    }
    if i >= a.len() {
        i < b.len()
    } else if i >= b.len() {
        false
    } else {
        a[i] < b[i]
    }
}

proof fn lemma_sorted_insert_skip(s: Seq<Seq<char>>, x: Seq<char>, k: int)
    requires
        0 <= k <= s.len(),
        forall|j: int| 0 <= j < k ==> #[trigger] s[j] != x && !lex_lt(x, s[j]),
    ensures
        sorted_insert(s, x) == s.take(k) + sorted_insert(s.skip(k), x),
    decreases k,
{
    if k == 0 {
        assert(s.skip(0) =~= s);
        assert(s.take(0) + sorted_insert(s, x) =~= sorted_insert(s, x));
    } else {
        let t = s.drop_first();
        assert forall|j: int| 0 <= j < k - 1 implies #[trigger] t[j] != x && !lex_lt(x, t[j]) by {
            assert(t[j] == s[j + 1]);
        }
        lemma_sorted_insert_skip(t, x, k - 1);
        assert(s[0] != x && !lex_lt(x, s[0]));
        assert(t.skip(k - 1) =~= s.skip(k));
        assert(seq![s[0]] + t.take(k - 1) =~= s.take(k));
    }
}

fn sorted_insert_vec(s: &mut Vec<Vec<char>>, x: Vec<char>)
    ensures
        views(final(s)@) == sorted_insert(views(old(s)@), x@),
{
    let ghost v0 = views(s@);
    let mut k: usize = 0;
    while k < s.len()
        invariant
            k <= s@.len(),
            views(s@) == v0,
            v0 == views(old(s)@),
            forall|j: int| 0 <= j < k ==> #[trigger] v0[j] != x@ && !lex_lt(x@, v0[j]),
        decreases s@.len() - k,
    {
        assert(v0[k as int] == s@[k as int]@);
        if eq_vec(&s[k], &x) {
            proof {
                lemma_sorted_insert_skip(v0, x@, k as int);
                assert(v0.skip(k as int)[0] == x@);
                assert(v0.take(k as int) + v0.skip(k as int) =~= v0);
            }
            return;
        }
        if lex_lt_vec(&x, &s[k]) {
            proof {
                lemma_sorted_insert_skip(v0, x@, k as int);
                assert(v0.skip(k as int)[0] == v0[k as int]);
            }
            s.insert(k, x);
            assert(views(s@) =~= v0.take(k as int) + (seq![x@] + v0.skip(k as int)));
            return;
        }
        k = k + 1;
    }
    proof {
        lemma_sorted_insert_skip(v0, x@, k as int);
        assert(v0.skip(k as int) =~= Seq::<Seq<char>>::empty());
    }
    let ghost xv = x@;
    s.push(x);
    assert(views(s@) =~= v0.take(k as int) + seq![xv]);
}

fn contains_vec_of(ms: &Vec<Vec<char>>, x: &Vec<char>) -> (r: bool)
    ensures
        r == views(ms@).contains(x@),
{
    let mut k: usize = 0;
    while k < ms.len()
        invariant
            k <= ms@.len(),
            forall|j: int| 0 <= j < k ==> #[trigger] views(ms@)[j] != x@,
        decreases ms@.len() - k,
    {
        if eq_vec(&ms[k], x) {
            assert(views(ms@)[k as int] == x@);
            return true;
        }
        k = k + 1;
    }
    false
}

fn module_file_count_vec(ps: &Vec<Vec<char>>, m: &Vec<char>) -> (r: usize)
    ensures
        r == module_file_count(views(ps@), m@),
{
    let mut c: usize = 0;
    let mut k: usize = 0;
    while k < ps.len()
        invariant
            k <= ps@.len(),
            c <= k,
            c == module_file_count(views(ps@).take(k as int), m@),
        decreases ps@.len() - k,
    {
        assert(views(ps@).take(k + 1).drop_last() =~= views(ps@).take(k as int));
        assert(views(ps@)[k as int] == ps@[k as int]@);
        let md = path_module_vec(&ps[k]);
        let sl = single('/');
        proof { reveal_strlit("/"); }
        assert(sl@ =~= "/"@);
        if rfind_vec(&ps[k], &sl).is_some() && eq_vec(&md, m) {
            c = c + 1;
        }
        k = k + 1;
    }
    assert(views(ps@).take(k as int) =~= views(ps@));
    c
}

fn module_targets_exec(graph: &CodeGraph, ms: &Vec<Vec<char>>, src: &Vec<char>, idx: usize, out: &mut Vec<char>)
    requires
        graph@.wf(),
        idx < graph@.nodes.len(),
    ensures
        final(out)@ == old(out)@ + module_target_lines(graph@.nodes, views(ms@), src@, neighbors_of(graph@.edges, idx, GraphDirection::Outgoing)),
{
    let hs = graph.neighbors(idx, GraphDirection::Outgoing);
    let ghost o = out@;
    proof { lemma_neighbors_bound(graph@.edges, idx, graph@.nodes.len()); }
    let src_in = contains_vec_of(ms, src);
    let src_id = sanitize_mermaid_id(src);
    let mut j: usize = 0;
    while j < hs.len()
        invariant
            j <= hs@.len(),
            graph@.wf(),
            hs@ == neighbors_of(graph@.edges, idx, GraphDirection::Outgoing),
            forall|i: int| 0 <= i < hs@.len() ==> #[trigger] hs@[i] < graph@.nodes.len(),
            src_in == views(ms@).contains(src@),
            src_id@ == mermaid_id(src@),
            out@ == o + module_target_lines(graph@.nodes, views(ms@), src@, hs@.take(j as int)),
        decreases hs@.len() - j,
    {
        let h = hs[j];
        assert(hs@.take(j + 1).drop_last() =~= hs@.take(j as int));
        assert(hs@[j as int] < graph@.nodes.len());
        let w = graph.node(h);
        let ghost o2 = out@;
        match w {
            CodeGraphNode::FileNode(d) => {
                let tp = chars_of(d.path.as_str());
                let tg = path_module_vec(&tp);
                if !eq_vec(src, &tg) && src_in && contains_vec_of(ms, &tg) {
                    let tid = sanitize_mermaid_id(&tg);
                    append_str(out, "    ");
                    append_vec(out, &src_id);
                    append_str(out, " --> ");
                    append_vec(out, &tid);
                    append_str(out, "\n");
                    assert(out@ =~= o2 + ("    "@ + mermaid_id(src@) + " --> "@ + mermaid_id(tg@) + "\n"@));
                } else {
                    assert(out@ =~= o2 + Seq::<char>::empty());
                }
            },
            _ => {
                assert(out@ =~= o2 + Seq::<char>::empty());
            },
        }
        j = j + 1;
    }
    assert(hs@.take(j as int) =~= hs@);
}

impl DiagramGenerator {
    /// The module dependency diagram of the graph.
    pub fn module_dependency_diagram(graph: &CodeGraph) -> (r: String)
        requires
            graph@.wf(),
        ensures
            r@ == module_diagram_text(graph@),
    {
        let fnodes = graph.file_nodes();
        let ghost fix = indices_below(graph@.nodes, NodeTag::File, graph@.nodes.len() as int);
        proof { lemma_indices_below_bound(graph@.nodes, NodeTag::File, graph@.nodes.len() as int); }
        let ghost ps_all = file_paths(graph@);
        // The paths of the file nodes, and the ordered modules.
        let mut ps: Vec<Vec<char>> = Vec::new();
        let mut mods: Vec<Vec<char>> = Vec::new();
        let mut k: usize = 0;
        while k < fnodes.len()
            invariant
                k <= fnodes@.len(),
                firsts(fnodes@) == fix,
                ps_all == file_paths(graph@),
                fix == indices_below(graph@.nodes, NodeTag::File, graph@.nodes.len() as int),
                forall|j: int| 0 <= j < fnodes@.len() ==> graph@.nodes[(#[trigger] fnodes@[j]).0 as int] == CodeGraphNode::FileNode(*fnodes@[j].1)@,
                views(ps@) == ps_all.take(k as int),
                views(mods@) == module_set(views(ps@)),
            decreases fnodes@.len() - k,
        {
            let (idx, data) = fnodes[k];
            assert(fix[k as int] == idx);
            assert(graph@.nodes[idx as int] == CodeGraphNode::FileNode(*data)@);
            let p = chars_of(data.path.as_str());
            let ghost before = views(ps@);
            let sl = single('/');
            proof { reveal_strlit("/"); }
            assert(sl@ =~= "/"@);
            if rfind_vec(&p, &sl).is_some() {
                let md = path_module_vec(&p);
                sorted_insert_vec(&mut mods, md);
            }
            ps.push(p);
            proof {
                assert(views(ps@) =~= before.push(data.path@));
                assert(views(ps@).drop_last() =~= before);
                assert(ps_all.take(k + 1) =~= ps_all.take(k as int).push(ps_all[k as int]));
            }
            k = k + 1;
        }
        assert(ps_all.take(k as int) =~= ps_all);
        if mods.len() > 30 {
            mods.truncate(30);
        }
        let ghost ms = first_n(module_set(ps_all), 30);
        assert(views(mods@) =~= ms);
        let mut out = chars_of("graph TD\n");
        let mut m: usize = 0;
        while m < mods.len()
            invariant
                m <= mods@.len(),
                views(mods@) == ms,
                views(ps@) == ps_all,
                out@ == "graph TD\n"@ + module_node_lines(ps_all, ms.take(m as int)),
            decreases mods@.len() - m,
        {
            assert(ms.take(m + 1).drop_last() =~= ms.take(m as int));
            assert(ms[m as int] == mods@[m as int]@);
            let ghost o = out@;
            let id = sanitize_mermaid_id(&mods[m]);
            let count = module_file_count_vec(&ps, &mods[m]);
            let digits = decimal_vec(count);
            append_str(&mut out, "    ");
            append_vec(&mut out, &id);
            append_str(&mut out, "[\"");
            append_vec(&mut out, &mods[m]);
            append_str(&mut out, " (");
            append_vec(&mut out, &digits);
            append_str(&mut out, " files)\"]\n");
            assert(out@ =~= o + ("    "@ + mermaid_id(ms[m as int]) + "[\""@ + ms[m as int] + " ("@
                + decimal(module_file_count(ps_all, ms[m as int])) + " files)\"]\n"@));
            m = m + 1;
        }
        assert(ms.take(m as int) =~= ms);
        let ghost head = out@;
        let mut j: usize = 0;
        while j < fnodes.len()
            invariant
                j <= fnodes@.len(),
                graph@.wf(),
                firsts(fnodes@) == fix,
                fix == indices_below(graph@.nodes, NodeTag::File, graph@.nodes.len() as int),
                forall|i: int| 0 <= i < fix.len() ==> #[trigger] fix[i] < graph@.nodes.len(),
                forall|i: int| 0 <= i < fnodes@.len() ==> graph@.nodes[(#[trigger] fnodes@[i]).0 as int] == CodeGraphNode::FileNode(*fnodes@[i].1)@,
                views(mods@) == ms,
                out@ == head + module_edge_lines(graph@, ms, fix.take(j as int)),
            decreases fnodes@.len() - j,
        {
            let (idx, data) = fnodes[j];
            assert(fix[j as int] == idx);
            assert(fix.take(j + 1).drop_last() =~= fix.take(j as int));
            assert(graph@.nodes[idx as int] == CodeGraphNode::FileNode(*data)@);
            let p = chars_of(data.path.as_str());
            let src = path_module_vec(&p);
            module_targets_exec(graph, &mods, &src, idx, &mut out);
            j = j + 1;
        }
        assert(fix.take(j as int) =~= fix);
        string_of(out.as_slice())
    }
}

// ---------------------------------------------------------------------------
// Laws of the module order
// ---------------------------------------------------------------------------

/// Each item comes before every later one.
pub open spec fn strictly_sorted(s: Seq<Seq<char>>) -> bool {
    forall|i: int, j: int| 0 <= i < j < s.len() ==> lex_lt(#[trigger] s[i], #[trigger] s[j])
}

proof fn lemma_lex_irreflexive(a: Seq<char>, i: int)
    requires
        0 <= i,
    ensures
        !lex_lt_from(a, a, i),
    decreases a.len() - i,
{
    if i < a.len() {
        lemma_lex_irreflexive(a, i + 1);
    }
}

proof fn lemma_lex_trans(a: Seq<char>, b: Seq<char>, c: Seq<char>, i: int)
    requires
        0 <= i,
        lex_lt_from(a, b, i),
        lex_lt_from(b, c, i),
    ensures
        lex_lt_from(a, c, i),
    decreases a.len() - i,
{
    if i < a.len() && i < b.len() && i < c.len() && a[i] == b[i] && b[i] == c[i] {
        lemma_lex_trans(a, b, c, i + 1);
    }
}

proof fn lemma_lex_total(a: Seq<char>, b: Seq<char>, i: int)
    requires
        0 <= i <= a.len(),
        i <= b.len(),
        a.take(i) == b.take(i),
        a != b,
    ensures
        lex_lt_from(a, b, i) || lex_lt_from(b, a, i),
    decreases a.len() - i,
{
    if i == a.len() && i == b.len() {
        assert(a =~= a.take(i));
        assert(b =~= b.take(i));
    } else if i < a.len() && i < b.len() && a[i] != b[i] {
        assert((a[i] as int) != (b[i] as int));
    } else if i < a.len() && i < b.len() && a[i] == b[i] {
        assert(a.take(i + 1) =~= a.take(i).push(a[i]));
        assert(b.take(i + 1) =~= b.take(i).push(b[i]));
        lemma_lex_total(a, b, i + 1);
    }
}

proof fn lemma_sorted_insert(s: Seq<Seq<char>>, x: Seq<char>)
    requires
        strictly_sorted(s),
    ensures
        strictly_sorted(sorted_insert(s, x)),
        forall|y: Seq<char>| #[trigger] sorted_insert(s, x).contains(y) <==> (s.contains(y) || y == x),
    decreases s.len(),
{
    let r = sorted_insert(s, x);
    if s.len() == 0 {
        assert(r =~= seq![x]);
        assert forall|y: Seq<char>| r.contains(y) <==> (s.contains(y) || y == x) by {
            if r.contains(y) {
                assert(r[0] == x);
            }
            if y == x {
                assert(r[0] == y);
            }
        }
    } else if s[0] == x {
        assert forall|y: Seq<char>| r.contains(y) <==> (s.contains(y) || y == x) by {
            if y == x {
                assert(s[0] == y);
            }
        }
    } else if lex_lt(x, s[0]) {
        assert(r =~= seq![x] + s);
        assert forall|i: int, j: int| 0 <= i < j < r.len() implies lex_lt(#[trigger] r[i], #[trigger] r[j]) by {
            if i == 0 {
                if j > 1 {
                    assert(lex_lt(s[0], s[j - 1]));
                    lemma_lex_trans(x, s[0], s[j - 1], 0);
                }
            } else {
                assert(r[i] == s[i - 1] && r[j] == s[j - 1]);
            }
        }
        assert forall|y: Seq<char>| r.contains(y) <==> (s.contains(y) || y == x) by {
            if r.contains(y) {
                let k = choose|k: int| 0 <= k < r.len() && r[k] == y;
                if k > 0 {
                    assert(s[k - 1] == y);
                }
            }
            if s.contains(y) {
                let k = choose|k: int| 0 <= k < s.len() && s[k] == y;
                assert(r[k + 1] == y);
            }
            if y == x {
                assert(r[0] == y);
            }
        }
    } else {
        let t = s.drop_first();
        assert(strictly_sorted(t)) by {
            assert forall|i: int, j: int| 0 <= i < j < t.len() implies lex_lt(#[trigger] t[i], #[trigger] t[j]) by {
                assert(t[i] == s[i + 1] && t[j] == s[j + 1]);
            }
        }
        lemma_sorted_insert(t, x);
        let rt = sorted_insert(t, x);
        assert(r =~= seq![s[0]] + rt);
        assert(s[0] != x);
        assert(lex_lt(s[0], x)) by {
            assert(s[0].take(0) =~= x.take(0));
            lemma_lex_total(s[0], x, 0);
        }
        assert forall|i: int, j: int| 0 <= i < j < r.len() implies lex_lt(#[trigger] r[i], #[trigger] r[j]) by {
            if i == 0 {
                assert(rt.contains(r[j]));
                if r[j] != x {
                    assert(t.contains(r[j]));
                    let k = choose|k: int| 0 <= k < t.len() && t[k] == r[j];
                    assert(s[k + 1] == r[j]);
                    assert(lex_lt(s[0], s[k + 1]));
                }
            } else {
                assert(r[i] == rt[i - 1] && r[j] == rt[j - 1]);
            }
        }
        assert forall|y: Seq<char>| r.contains(y) <==> (s.contains(y) || y == x) by {
            if r.contains(y) {
                let k = choose|k: int| 0 <= k < r.len() && r[k] == y;
                if k > 0 {
                    assert(rt.contains(y));
                    if y != x {
                        assert(t.contains(y));
                        let m = choose|m: int| 0 <= m < t.len() && t[m] == y;
                        assert(s[m + 1] == y);
                    }
                }
            }
            if s.contains(y) {
                let k = choose|k: int| 0 <= k < s.len() && s[k] == y;
                if k == 0 {
                    assert(r[0] == y);
                } else {
                    assert(t[k - 1] == y);
                    assert(rt.contains(y));
                    let m = choose|m: int| 0 <= m < rt.len() && rt[m] == y;
                    assert(r[m + 1] == y);
                }
            }
            if y == x {
                assert(rt.contains(y));
                let m = choose|m: int| 0 <= m < rt.len() && rt[m] == y;
                assert(r[m + 1] == y);
            }
        }
    }
}

/// The modules of the module diagram come in strictly increasing order, and
/// they are exactly the directories of the file paths that have one.
pub proof fn law_module_set(ps: Seq<Seq<char>>)
    ensures
        strictly_sorted(module_set(ps)),
        forall|m: Seq<char>| #[trigger] module_set(ps).contains(m) <==> exists|i: int| 0 <= i < ps.len() && has_dir(#[trigger] ps[i]) && path_module(ps[i]) == m,
    decreases ps.len(),
{
    if ps.len() == 0 {
    } else {
        let prev = ps.drop_last();
        law_module_set(prev);
        if has_dir(ps.last()) {
            lemma_sorted_insert(module_set(prev), path_module(ps.last()));
        }
        assert forall|m: Seq<char>| #[trigger] module_set(ps).contains(m) <==> exists|i: int| 0 <= i < ps.len() && has_dir(#[trigger] ps[i]) && path_module(ps[i]) == m by {
            if module_set(ps).contains(m) {
                if module_set(prev).contains(m) {
                    let i = choose|i: int| 0 <= i < prev.len() && has_dir(#[trigger] prev[i]) && path_module(prev[i]) == m;
                    assert(ps[i] == prev[i]);
                } else {
                    assert(ps[ps.len() - 1] == ps.last());
                }
            }
            if exists|i: int| 0 <= i < ps.len() && has_dir(#[trigger] ps[i]) && path_module(ps[i]) == m {
                let i = choose|i: int| 0 <= i < ps.len() && has_dir(#[trigger] ps[i]) && path_module(ps[i]) == m;
                if i < ps.len() - 1 {
                    assert(prev[i] == ps[i]);
                    assert(module_set(prev).contains(m));
                }
            }
        }
    }
}

// ---------------------------------------------------------------------------
// Laws of node ids
// ---------------------------------------------------------------------------

proof fn lemma_strip_prefixes_stop(s: Seq<char>, p: Seq<char>, i: int)
    requires
        0 <= i <= s.len(),
        p.len() > 0,
    ensures
        !matches_at(s, p, strip_prefixes_from(s, p, i)),
    decreases s.len() - i,
{
    if matches_at(s, p, i) {
        lemma_strip_prefixes_stop(s, p, i + p.len());
    }
}

proof fn lemma_strip_suffixes_stop(s: Seq<char>, p: Seq<char>, j: int)
    requires
        0 <= j <= s.len(),
        p.len() > 0,
    ensures
        !matches_at(s, p, strip_suffixes_before(s, p, j) - p.len()),
    decreases j,
{
    if matches_at(s, p, j - p.len()) {
        lemma_strip_suffixes_stop(s, p, j - p.len());
    }
}

/// A Mermaid node id holds only alphanumeric characters and `_`, and neither
/// starts nor ends with `_`.
pub proof fn law_mermaid_id(s: Seq<char>)
    ensures
        forall|i: int| 0 <= i < mermaid_id(s).len() ==> is_alphanumeric(#[trigger] mermaid_id(s)[i]) || mermaid_id(s)[i] == '_',
        mermaid_id(s).len() > 0 ==> mermaid_id(s)[0] != '_' && mermaid_id(s).last() != '_',
{
    reveal_strlit("_");
    let u = "_"@;
    let t = Seq::new(s.len(), |i: int| id_char(s[i]));
    let k = strip_prefixes_from(t, u, 0);
    lemma_strip_prefixes_bounds(t, u, 0);
    lemma_strip_prefixes_stop(t, u, 0);
    let a = t.subrange(k, t.len() as int);
    assert(a == trim_start_matches(t, u));
    let j = strip_suffixes_before(a, u, a.len() as int);
    lemma_strip_suffixes_bounds(a, u, a.len() as int);
    lemma_strip_suffixes_stop(a, u, a.len() as int);
    let b = a.subrange(0, j);
    assert(b == mermaid_id(s));
    assert forall|i: int| 0 <= i < b.len() implies is_alphanumeric(#[trigger] b[i]) || b[i] == '_' by {
        assert(b[i] == t[k + i]);
    }
    if b.len() > 0 {
        if b[0] == '_' {
            assert(t.subrange(k, k + 1) =~= u);
        }
        if b.last() == '_' {
            assert(a.subrange(j - 1, j) =~= u);
        }
    }
}

} // verus!
