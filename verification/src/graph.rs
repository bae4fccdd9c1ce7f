//! The code graph: files, symbols, endpoints and external dependencies as
//! nodes of a `petgraph` directed graph, with containment, reference,
//! handler and dependency edges between them.
//!
//! Node indices are plain `usize` values; the graph's contents are read
//! through the names [`graph_nodes`] and [`graph_edges`].

use vstd::prelude::*;

use crate::ir::{
    endpoint_views, reference_views, spec_stable_key, symbol_views, Dependency, Ecosystem, Endpoint,
    EndpointView, FileIR, Language, ManifestInfo, Reference, ReferenceKind, ReferenceTarget,
    ReferenceTargetView, ReferenceView, RepoIR, Symbol, SymbolIdView, SymbolKind, SymbolView,
    Visibility,
};
use crate::manifest::{dep_views, DependencyView};
use crate::text::{chars_of, ends_with, ends_with_vec, eq_vec};

verus! {

pub type DiGraph = petgraph::graph::Graph<CodeGraphNode, CodeGraphEdge, petgraph::Directed, u32>;

#[verifier::external_type_specification]
#[verifier::external_body]
#[verifier::reject_recursive_types(N)]
#[verifier::reject_recursive_types(E)]
#[verifier::reject_recursive_types(Ty)]
#[verifier::reject_recursive_types(Ix)]
pub struct ExGraph<N, E, Ty, Ix>(petgraph::graph::Graph<N, E, Ty, Ix>);

#[verifier::external_type_specification]
#[verifier::external_body]
pub struct ExDirected(petgraph::Directed);

#[derive(Debug, Clone)]
pub enum CodeGraphNode {
    FileNode(FileNodeData),
    SymbolNode(SymbolNodeData),
    EndpointNode(EndpointNodeData),
    ExternalDep(DepNodeData),
}

#[derive(Debug, Clone)]
pub struct FileNodeData {
    pub path: String,
    pub language: Language,
}

#[derive(Debug, Clone)]
pub struct SymbolNodeData {
    /// The symbol's stable key.
    pub symbol_id: String,
    pub qualified_name: String,
    pub kind: SymbolKind,
    pub visibility: Visibility,
    pub file: String,
}

#[derive(Debug, Clone)]
pub struct EndpointNodeData {
    pub method: String,
    pub path: String,
}

#[derive(Debug, Clone)]
pub struct DepNodeData {
    pub name: String,
    pub ecosystem: Ecosystem,
}

/// The mathematical model of a node: strings as character sequences.
pub enum NodeView {
    File { path: Seq<char>, language: Language },
    Symbol { symbol_id: Seq<char>, qualified_name: Seq<char>, kind: SymbolKind, visibility: Visibility, file: Seq<char> },
    Endpoint { method: Seq<char>, path: Seq<char> },
    Dep { name: Seq<char>, ecosystem: Ecosystem },
}

impl View for CodeGraphNode {
    type V = NodeView;

    open spec fn view(&self) -> NodeView {
        match self {
            CodeGraphNode::FileNode(d) => NodeView::File { path: d.path@, language: d.language },
            CodeGraphNode::SymbolNode(d) => NodeView::Symbol {
                symbol_id: d.symbol_id@,
                qualified_name: d.qualified_name@,
                kind: d.kind,
                visibility: d.visibility,
                file: d.file@,
            },
            CodeGraphNode::EndpointNode(d) => NodeView::Endpoint { method: d.method@, path: d.path@ },
            CodeGraphNode::ExternalDep(d) => NodeView::Dep { name: d.name@, ecosystem: d.ecosystem },
        }
    }
}

pub open spec fn node_views(v: Seq<CodeGraphNode>) -> Seq<NodeView> {
    Seq::new(v.len(), |i: int| v[i]@)
}

/// The keys and nodes of an index.
pub open spec fn key_views(v: Seq<(String, usize)>) -> Seq<(Seq<char>, usize)> {
    Seq::new(v.len(), |i: int| (v[i].0@, v[i].1))
}

#[derive(Debug, Clone)]
pub struct CodeGraphEdge {
    pub kind: EdgeKind,
}

#[derive(Debug, Clone, Copy, PartialEq, Eq, Hash, Structural)]
pub enum EdgeKind {
    FileImports,
    Contains,
    Implements,
    Extends,
    UsesType,
    FieldType,
    Calls,
    HandledBy,
    MiddlewareApplied,
    DependsOn,
}

impl EdgeKind {
    pub open spec fn spec_name(self) -> Seq<char> {
        match self {
            EdgeKind::FileImports => "imports"@,
            EdgeKind::Contains => "contains"@,
            EdgeKind::Implements => "implements"@,
            EdgeKind::Extends => "extends"@,
            EdgeKind::UsesType => "uses_type"@,
            EdgeKind::FieldType => "field_type"@,
            EdgeKind::Calls => "calls"@,
            EdgeKind::HandledBy => "handled_by"@,
            EdgeKind::MiddlewareApplied => "middleware"@,
            EdgeKind::DependsOn => "depends_on"@,
        }
    }

    /// The text `Display` shows.
    pub fn to_string(&self) -> (r: String)
        ensures
            r@ == self.spec_name(),
    {
        let s: &str = match self {
            EdgeKind::FileImports => "imports",
            EdgeKind::Contains => "contains",
            EdgeKind::Implements => "implements",
            EdgeKind::Extends => "extends",
            EdgeKind::UsesType => "uses_type",
            EdgeKind::FieldType => "field_type",
            EdgeKind::Calls => "calls",
            EdgeKind::HandledBy => "handled_by",
            EdgeKind::MiddlewareApplied => "middleware",
            EdgeKind::DependsOn => "depends_on",
        };
        s.to_owned()
    }
}

/// Which edges of a node to follow.
#[derive(Debug, Clone, Copy, PartialEq, Eq, Structural)]
pub enum GraphDirection {
    Outgoing,
    Incoming,
}

// ---------------------------------------------------------------------------
// The petgraph graph
// ---------------------------------------------------------------------------

/// The node weights of a graph, by node index.
pub uninterp spec fn graph_nodes(g: DiGraph) -> Seq<CodeGraphNode>;

/// The edges of a graph in the order they were added: source, target, kind.
pub uninterp spec fn graph_edges(g: DiGraph) -> Seq<(usize, usize, EdgeKind)>;

/// `Graph::new`: no nodes, no edges.
#[verifier::external_body]
fn new_graph() -> (g: DiGraph)
    ensures
        graph_nodes(g) == Seq::<CodeGraphNode>::empty(),
        graph_edges(g) == Seq::<(usize, usize, EdgeKind)>::empty(),
{
    petgraph::graph::Graph::new()
}

/// `Graph::add_node`: the weight goes last and its index is the old node
/// count. The count must stay below the `u32` index limit.
#[verifier::external_body]
fn add_graph_node(g: &mut DiGraph, w: CodeGraphNode) -> (r: usize)
    requires
        graph_nodes(*old(g)).len() < u32::MAX,
    ensures
        graph_nodes(*final(g)) == graph_nodes(*old(g)).push(w),
        graph_edges(*final(g)) == graph_edges(*old(g)),
        r == graph_nodes(*old(g)).len(),
{
    g.add_node(w).index()
}

/// `Graph::add_edge` between two existing nodes: the edge goes last.
#[verifier::external_body]
fn add_graph_edge(g: &mut DiGraph, a: usize, b: usize, kind: EdgeKind)
    requires
        a < graph_nodes(*old(g)).len(),
        b < graph_nodes(*old(g)).len(),
        graph_nodes(*old(g)).len() < u32::MAX,
        graph_edges(*old(g)).len() < u32::MAX,
    ensures
        graph_edges(*final(g)) == graph_edges(*old(g)).push((a, b, kind)),
        graph_nodes(*final(g)) == graph_nodes(*old(g)),
{
    g.add_edge(petgraph::graph::NodeIndex::new(a), petgraph::graph::NodeIndex::new(b), CodeGraphEdge { kind });
}

/// The targets of the edges leaving `a`, most recently added first.
pub open spec fn out_neighbors(es: Seq<(usize, usize, EdgeKind)>, a: usize) -> Seq<usize>
    decreases es.len(),
{
    if es.len() == 0 {
        Seq::empty()
    } else {
        (if es.last().0 == a { seq![es.last().1] } else { Seq::empty() }) + out_neighbors(es.drop_last(), a)
    }
}

/// The sources of the edges entering `a`, most recently added first.
pub open spec fn in_neighbors(es: Seq<(usize, usize, EdgeKind)>, a: usize) -> Seq<usize>
    decreases es.len(),
{
    if es.len() == 0 {
        Seq::empty()
    } else {
        (if es.last().1 == a { seq![es.last().0] } else { Seq::empty() }) + in_neighbors(es.drop_last(), a)
    }
}

pub open spec fn neighbors_of(es: Seq<(usize, usize, EdgeKind)>, a: usize, dir: GraphDirection) -> Seq<usize> {
    match dir {
        GraphDirection::Outgoing => out_neighbors(es, a),
        GraphDirection::Incoming => in_neighbors(es, a),
    }
}

/// `Graph::neighbors_directed` on a node: for a directed graph, the
/// neighbors in reverse order of the edges' addition.
#[verifier::external_body]
fn graph_neighbors(g: &DiGraph, a: usize, dir: GraphDirection) -> (r: Vec<usize>)
    requires
        a < graph_nodes(*g).len(),
        graph_nodes(*g).len() < u32::MAX,
    ensures
        r@ == neighbors_of(graph_edges(*g), a, dir),
{
    let d = match dir {
        GraphDirection::Outgoing => petgraph::Direction::Outgoing,
        GraphDirection::Incoming => petgraph::Direction::Incoming,
    };
    g.neighbors_directed(petgraph::graph::NodeIndex::new(a), d).map(|n| n.index()).collect()
}

/// The kind of the most recently added edge from `a` to `b`.
pub open spec fn last_edge_kind(es: Seq<(usize, usize, EdgeKind)>, a: usize, b: usize) -> Option<EdgeKind>
    decreases es.len(),
{
    if es.len() == 0 {
        None
    } else if es.last().0 == a && es.last().1 == b {
        Some(es.last().2)
    } else {
        last_edge_kind(es.drop_last(), a, b)
    }
}

/// `Graph::edges_connecting(a, b).next()`: the first edge the outgoing walk
/// of `a` meets that ends at `b`, the most recently added one.
#[verifier::external_body]
fn graph_edge_kind(g: &DiGraph, a: usize, b: usize) -> (r: Option<EdgeKind>)
    requires
        a < graph_nodes(*g).len(),
        b < graph_nodes(*g).len(),
        graph_nodes(*g).len() < u32::MAX,
    ensures
        r == last_edge_kind(graph_edges(*g), a, b),
{
    g.edges_connecting(petgraph::graph::NodeIndex::new(a), petgraph::graph::NodeIndex::new(b)).next().map(|e| e.weight().kind)
}

/// The weight of node `a` (`Graph` indexed by a node).
#[verifier::external_body]
fn graph_node(g: &DiGraph, a: usize) -> (r: &CodeGraphNode)
    requires
        a < graph_nodes(*g).len(),
        graph_nodes(*g).len() < u32::MAX,
    ensures
        *r == graph_nodes(*g)[a as int],
{
    &g[petgraph::graph::NodeIndex::new(a)]
}

/// `Graph::node_count`.
#[verifier::external_body]
fn graph_node_count(g: &DiGraph) -> (r: usize)
    ensures
        r == graph_nodes(*g).len(),
{
    g.node_count()
}

/// `Graph::edge_count`.
#[verifier::external_body]
fn graph_edge_count(g: &DiGraph) -> (r: usize)
    ensures
        r == graph_edges(*g).len(),
{
    g.edge_count()
}

// ---------------------------------------------------------------------------
// Indexes
// ---------------------------------------------------------------------------

/// The node a key is indexed under.
pub open spec fn index_lookup(ix: Seq<(Seq<char>, usize)>, key: Seq<char>) -> Option<usize>
    decreases ix.len(),
{
    if ix.len() == 0 {
        None
    } else if ix.last().0 == key {
        Some(ix.last().1)
    } else {
        index_lookup(ix.drop_last(), key)
    }
}

pub open spec fn index_position(ix: Seq<(Seq<char>, usize)>, key: Seq<char>) -> Option<int>
    decreases ix.len(),
{
    if ix.len() == 0 {
        None
    } else if ix.last().0 == key {
        Some(ix.len() - 1)
    } else {
        index_position(ix.drop_last(), key)
    }
}

/// The index with `key` set to `node`: replaced where the key is, appended
/// otherwise (`HashMap::insert`).
pub open spec fn index_set(ix: Seq<(Seq<char>, usize)>, key: Seq<char>, node: usize) -> Seq<(Seq<char>, usize)> {
    match index_position(ix, key) {
        Some(p) => ix.update(p, (key, node)),
        None => ix.push((key, node)),
    }
}

/// Keys are distinct and every node is below `n`.
pub open spec fn index_wf(ix: Seq<(Seq<char>, usize)>, n: nat) -> bool {
    &&& forall|i: int, j: int| 0 <= i < j < ix.len() ==> ix[i].0 != ix[j].0
    &&& forall|i: int| 0 <= i < ix.len() ==> #[trigger] ix[i].1 < n
}

proof fn lemma_index_position(ix: Seq<(Seq<char>, usize)>, key: Seq<char>)
    ensures
        index_position(ix, key) matches Some(p) ==> 0 <= p < ix.len() && ix[p].0 == key && index_lookup(ix, key) == Some(ix[p].1),
        index_position(ix, key) is None ==> index_lookup(ix, key) is None && forall|i: int| 0 <= i < ix.len() ==> ix[i].0 != key,
    decreases ix.len(),
{
    if ix.len() > 0 && ix.last().0 != key {
        lemma_index_position(ix.drop_last(), key);
        if index_position(ix, key) is None {
            assert forall|i: int| 0 <= i < ix.len() implies ix[i].0 != key by {
                if i < ix.len() - 1 {
                    assert(ix.drop_last()[i] == ix[i]);
                }
            }
        }
    }
}

proof fn lemma_index_set(ix: Seq<(Seq<char>, usize)>, key: Seq<char>, node: usize, n: nat, m: nat)
    requires
        index_wf(ix, n),
        node < m,
        n <= m,
    ensures
        index_wf(index_set(ix, key, node), m),
{
    lemma_index_position(ix, key);
    let s = index_set(ix, key, node);
    assert forall|i: int| 0 <= i < s.len() implies #[trigger] s[i].1 < m by {
        if i < ix.len() && s[i] == ix[i] {
            assert(ix[i].1 < n);
        }
    }
}

proof fn lemma_index_wf_grow(ix: Seq<(Seq<char>, usize)>, n: nat, m: nat)
    requires
        index_wf(ix, n),
        n <= m,
    ensures
        index_wf(ix, m),
{
    assert forall|i: int| 0 <= i < ix.len() implies #[trigger] ix[i].1 < m by {
        assert(ix[i].1 < n);
    }
}

proof fn lemma_index_lookup_bound(ix: Seq<(Seq<char>, usize)>, key: Seq<char>, n: nat)
    requires
        index_wf(ix, n),
    ensures
        index_lookup(ix, key) matches Some(v) ==> v < n,
{
    lemma_index_position(ix, key);
    if let Some(p) = index_position(ix, key) {
        assert(ix[p].1 < n);
    }
}

fn index_find(ix: &Vec<(String, usize)>, key: &Vec<char>) -> (r: Option<usize>)
    ensures
        match r {
            Some(p) => index_position(key_views(ix@), key@) == Some(p as int) && p < ix.len(),
            None => index_position(key_views(ix@), key@) is None,
        },
{
    let ghost kv = key_views(ix@);
    let mut k: usize = ix.len();
    assert(kv.take(k as int) =~= kv);
    while k > 0
        invariant
            k <= ix.len(),
            kv == key_views(ix@),
            index_position(kv, key@) == index_position(kv.take(k as int), key@),
        decreases k,
    {
        let c = chars_of(ix[k - 1].0.as_str());
        assert(kv.take(k as int).last() == kv[k - 1]);
        if eq_vec(&c, key) {
            return Some(k - 1);
        }
        assert(kv.take(k as int).drop_last() =~= kv.take(k - 1));
        k = k - 1;
    }
    None
}

fn index_get(ix: &Vec<(String, usize)>, key: &Vec<char>) -> (r: Option<usize>)
    ensures
        r == index_lookup(key_views(ix@), key@),
{
    proof { lemma_index_position(key_views(ix@), key@); }
    match index_find(ix, key) {
        Some(p) => Some(ix[p].1),
        None => None,
    }
}

fn index_put(ix: &mut Vec<(String, usize)>, key: String, node: usize)
    ensures
        key_views(final(ix)@) == index_set(key_views(old(ix)@), key@, node),
{
    let kv = chars_of(key.as_str());
    let ghost before = key_views(ix@);
    match index_find(ix, &kv) {
        Some(p) => {
            ix.set(p, (key, node));
            assert(key_views(ix@) =~= before.update(p as int, (kv@, node)));
        },
        None => {
            ix.push((key, node));
            assert(key_views(ix@) =~= before.push((kv@, node)));
        },
    }
}

// ---------------------------------------------------------------------------
// The code graph
// ---------------------------------------------------------------------------

pub struct CodeGraph {
    pub graph: DiGraph,
    symbol_index: Vec<(String, usize)>,
    file_index: Vec<(String, usize)>,
    endpoint_index: Vec<(String, usize)>,
}

/// The mathematical model of a code graph: its nodes and edges, and the
/// indexes from keys to nodes (symbols by stable key, files by path,
/// endpoints by `METHOD path`).
pub struct GraphView {
    pub nodes: Seq<NodeView>,
    pub edges: Seq<(usize, usize, EdgeKind)>,
    pub symbol_index: Seq<(Seq<char>, usize)>,
    pub file_index: Seq<(Seq<char>, usize)>,
    pub endpoint_index: Seq<(Seq<char>, usize)>,
}

impl View for CodeGraph {
    type V = GraphView;

    closed spec fn view(&self) -> GraphView {
        GraphView {
            nodes: node_views(graph_nodes(self.graph)),
            edges: graph_edges(self.graph),
            symbol_index: key_views(self.symbol_index@),
            file_index: key_views(self.file_index@),
            endpoint_index: key_views(self.endpoint_index@),
        }
    }
}

impl GraphView {
    /// Indexes point at nodes, edges join nodes, and the counts stay below
    /// the `u32` index limit.
    pub open spec fn wf(self) -> bool {
        &&& self.nodes.len() < u32::MAX
        &&& self.edges.len() < u32::MAX
        &&& index_wf(self.symbol_index, self.nodes.len())
        &&& index_wf(self.file_index, self.nodes.len())
        &&& index_wf(self.endpoint_index, self.nodes.len())
        &&& forall|i: int| 0 <= i < self.edges.len() ==> #[trigger] self.edges[i].0 < self.nodes.len() && self.edges[i].1 < self.nodes.len()
    }

    pub open spec fn with_edge(self, a: usize, b: usize, k: EdgeKind) -> GraphView {
        GraphView { edges: self.edges.push((a, b, k)), ..self }
    }

    /// An edge between `to` and the node `from` names, where it names one.
    pub open spec fn edge_if(self, from: Option<usize>, to: usize, k: EdgeKind, forward: bool) -> GraphView {
        match from {
            Some(f) => if forward { self.with_edge(f, to, k) } else { self.with_edge(to, f, k) },
            None => self,
        }
    }
}

pub open spec fn empty_graph() -> GraphView {
    GraphView {
        nodes: Seq::empty(),
        edges: Seq::empty(),
        symbol_index: Seq::empty(),
        file_index: Seq::empty(),
        endpoint_index: Seq::empty(),
    }
}

/// Adding a file: a file node, indexed by its path.
pub open spec fn spec_add_file(g: GraphView, path: Seq<char>, language: Language) -> GraphView {
    let n = g.nodes.len() as usize;
    GraphView {
        nodes: g.nodes.push(NodeView::File { path, language }),
        file_index: index_set(g.file_index, path, n),
        ..g
    }
}

pub open spec fn id_key(id: SymbolIdView) -> Seq<char> {
    spec_stable_key(id.file_path, id.start_byte, id.end_byte, id.kind)
}

/// Adding a symbol: a symbol node indexed by its stable key, contained by
/// its file and by its parent where those are indexed.
pub open spec fn spec_add_symbol(g: GraphView, s: SymbolView) -> GraphView {
    let n = g.nodes.len() as usize;
    let key = id_key(s.id);
    let g1 = GraphView {
        nodes: g.nodes.push(NodeView::Symbol {
            symbol_id: key,
            qualified_name: s.qualified_name,
            kind: s.kind,
            visibility: s.visibility,
            file: s.file,
        }),
        symbol_index: index_set(g.symbol_index, key, n),
        ..g
    };
    let g2 = g1.edge_if(index_lookup(g1.file_index, s.file), n, EdgeKind::Contains, true);
    match s.parent {
        Some(p) => g2.edge_if(index_lookup(g2.symbol_index, id_key(p)), n, EdgeKind::Contains, true),
        None => g2,
    }
}

pub open spec fn edge_kind_of(k: ReferenceKind) -> EdgeKind {
    match k {
        ReferenceKind::Import => EdgeKind::FileImports,
        ReferenceKind::Implements => EdgeKind::Implements,
        ReferenceKind::Extends => EdgeKind::Extends,
        ReferenceKind::UsesType => EdgeKind::UsesType,
        ReferenceKind::FieldType => EdgeKind::FieldType,
        ReferenceKind::Call => EdgeKind::Calls,
        ReferenceKind::AnnotationUsage => EdgeKind::UsesType,
    }
}

/// Whether node `n` is a symbol whose qualified name ends with, or is, `name`.
pub open spec fn name_matches(nodes: Seq<NodeView>, n: usize, name: Seq<char>) -> bool {
    &&& n < nodes.len()
    &&& nodes[n as int] matches NodeView::Symbol { qualified_name, .. }
    &&& (ends_with(qualified_name, name) || qualified_name == name)
}

/// The first indexed symbol, from position `k` of the index on, whose
/// qualified name ends with `name`.
pub open spec fn find_by_name(ix: Seq<(Seq<char>, usize)>, nodes: Seq<NodeView>, name: Seq<char>, k: int) -> Option<usize>
    decreases ix.len() - k,
{
    if k < 0 || k >= ix.len() {
        None
    } else if name_matches(nodes, ix[k].1, name) {
        Some(ix[k].1)
    } else {
        find_by_name(ix, nodes, name, k + 1)
    }
}

/// Adding a reference: an edge from its source symbol to its target where
/// both are found, a resolved target by its key, an unresolved one by name.
pub open spec fn spec_add_reference(g: GraphView, r: ReferenceView) -> GraphView {
    match index_lookup(g.symbol_index, id_key(r.source)) {
        None => g,
        Some(src) => {
            let target = match r.target {
                ReferenceTargetView::Resolved(t) => index_lookup(g.symbol_index, id_key(t)),
                ReferenceTargetView::Unresolved(name) => find_by_name(g.symbol_index, g.nodes, name, 0),
            };
            match target {
                Some(t) => g.with_edge(src, t, edge_kind_of(r.kind)),
                None => g,
            }
        },
    }
}

/// Adding an endpoint: a node indexed by `METHOD path`, handled by its
/// handler where that is indexed.
pub open spec fn spec_add_endpoint(g: GraphView, e: EndpointView) -> GraphView {
    let n = g.nodes.len() as usize;
    let g1 = GraphView {
        nodes: g.nodes.push(NodeView::Endpoint { method: e.method.spec_name(), path: e.path }),
        endpoint_index: index_set(g.endpoint_index, e.method.spec_name() + " "@ + e.path, n),
        ..g
    };
    match e.handler {
        Some(h) => g1.edge_if(index_lookup(g1.symbol_index, id_key(h@)), n, EdgeKind::HandledBy, false),
        None => g1,
    }
}

/// Adding a dependency: a node, depended on by its manifest's file where
/// that is indexed.
pub open spec fn spec_add_dependency(g: GraphView, d: DependencyView) -> GraphView {
    let n = g.nodes.len() as usize;
    GraphView { nodes: g.nodes.push(NodeView::Dep { name: d.name, ecosystem: d.ecosystem }), ..g }.edge_if(
        index_lookup(g.file_index, d.source_file),
        n,
        EdgeKind::DependsOn,
        true,
    )
}

pub open spec fn add_files(g: GraphView, fs: Seq<FileIR>) -> GraphView
    decreases fs.len(),
{
    if fs.len() == 0 {
        g
    } else {
        spec_add_file(add_files(g, fs.drop_last()), fs.last().path@, fs.last().language)
    }
}

pub open spec fn add_symbols(g: GraphView, ss: Seq<SymbolView>) -> GraphView
    decreases ss.len(),
{
    if ss.len() == 0 {
        g
    } else {
        spec_add_symbol(add_symbols(g, ss.drop_last()), ss.last())
    }
}

pub open spec fn add_references(g: GraphView, rs: Seq<ReferenceView>) -> GraphView
    decreases rs.len(),
{
    if rs.len() == 0 {
        g
    } else {
        spec_add_reference(add_references(g, rs.drop_last()), rs.last())
    }
}

pub open spec fn add_endpoints(g: GraphView, es: Seq<EndpointView>) -> GraphView
    decreases es.len(),
{
    if es.len() == 0 {
        g
    } else {
        spec_add_endpoint(add_endpoints(g, es.drop_last()), es.last())
    }
}

pub open spec fn add_dependencies(g: GraphView, ds: Seq<DependencyView>) -> GraphView
    decreases ds.len(),
{
    if ds.len() == 0 {
        g
    } else {
        spec_add_dependency(add_dependencies(g, ds.drop_last()), ds.last())
    }
}

pub open spec fn add_manifests(g: GraphView, ms: Seq<ManifestInfo>) -> GraphView
    decreases ms.len(),
{
    if ms.len() == 0 {
        g
    } else {
        add_dependencies(add_manifests(g, ms.drop_last()), dep_views(ms.last().dependencies@))
    }
}

/// The graph of a repository: files, then symbols, references, endpoints,
/// and the dependencies of each manifest.
pub open spec fn spec_build(ir: RepoIR) -> GraphView {
    add_manifests(
        add_endpoints(
            add_references(add_symbols(add_files(empty_graph(), ir.files@), symbol_views(ir.symbols@)), reference_views(ir.references@)),
            endpoint_views(ir.endpoints@),
        ),
        ir.manifests@,
    )
}

/// The number of dependencies over all manifests.
pub open spec fn dep_total(ms: Seq<ManifestInfo>) -> nat
    decreases ms.len(),
{
    if ms.len() == 0 {
        0
    } else {
        dep_total(ms.drop_last()) + ms.last().dependencies@.len()
    }
}

/// The graph's `u32` indices can hold every node and edge a repository gives.
pub open spec fn graph_fits(ir: RepoIR) -> bool {
    &&& ir.files@.len() + ir.symbols@.len() + ir.endpoints@.len() + dep_total(ir.manifests@) < u32::MAX
    &&& 2 * ir.symbols@.len() + ir.references@.len() + ir.endpoints@.len() + dep_total(ir.manifests@) < u32::MAX
}

/// Whether the graph's `u32` indices can hold what a repository gives
/// (see [`graph_fits`]); [`CodeGraph::build_from_ir`] asks for it.
pub fn graph_fits_exec(ir: &RepoIR) -> (r: bool)
    ensures
        r == graph_fits(*ir),
{
    let limit: u64 = 0xffff_ffff;
    let ms = &ir.manifests;
    let mut total: u64 = 0;
    let mut k: usize = 0;
    while k < ms.len()
        invariant
            k <= ms@.len(),
            ms@ == ir.manifests@,
            total == dep_total(ms@.take(k as int)),
            total < limit,
            limit == u32::MAX,
        decreases ms@.len() - k,
    {
        proof {
            assert(ms@.take(k + 1).drop_last() =~= ms@.take(k as int));
        }
        let n = ms[k].dependencies.len() as u64;
        if n >= limit - total {
            proof {
                lemma_dep_total_prefix(ms@, k + 1);
            }
            return false;
        }
        total = total + n;
        k = k + 1;
    }
    proof {
        assert(ms@.take(k as int) =~= ms@);
    }
    let nf = ir.files.len() as u64;
    let ns = ir.symbols.len() as u64;
    let ne = ir.endpoints.len() as u64;
    let nr = ir.references.len() as u64;
    if nf >= limit || ns >= limit || ne >= limit || nr >= limit {
        return false;
    }
    nf + ns + ne + total < limit && 2 * ns + nr + ne + total < limit
}

proof fn lemma_node_views_push(v: Seq<CodeGraphNode>, w: CodeGraphNode)
    ensures
        node_views(v.push(w)) == node_views(v).push(w@),
{
    assert(node_views(v.push(w)) =~= node_views(v).push(w@));
}

impl CodeGraph {
    pub fn new() -> (r: Self)
        ensures
            r@ == empty_graph(),
            r@.wf(),
    {
        let r = CodeGraph {
            graph: new_graph(),
            symbol_index: Vec::new(),
            file_index: Vec::new(),
            endpoint_index: Vec::new(),
        };
        assert(r@.nodes =~= Seq::<NodeView>::empty());
        assert(r@.symbol_index =~= Seq::<(Seq<char>, usize)>::empty());
        assert(r@.file_index =~= Seq::<(Seq<char>, usize)>::empty());
        assert(r@.endpoint_index =~= Seq::<(Seq<char>, usize)>::empty());
        r
    }

    /// Adds a node and returns its index.
    fn push_node(&mut self, w: CodeGraphNode) -> (r: usize)
        requires
            old(self)@.wf(),
            old(self)@.nodes.len() + 1 < u32::MAX,
        ensures
            r == old(self)@.nodes.len(),
            final(self)@ == (GraphView { nodes: old(self)@.nodes.push(w@), ..old(self)@ }),
            final(self)@.nodes.len() < u32::MAX,
            forall|i: int| 0 <= i < final(self)@.edges.len() ==> #[trigger] final(self)@.edges[i].0 < final(self)@.nodes.len() && final(self)@.edges[i].1 < final(self)@.nodes.len(),
    {
        proof { lemma_node_views_push(graph_nodes(self.graph), w); }
        let ghost g0 = self@;
        let r = add_graph_node(&mut self.graph, w);
        assert forall|i: int| 0 <= i < self@.edges.len() implies #[trigger] self@.edges[i].0 < self@.nodes.len() && self@.edges[i].1 < self@.nodes.len() by {
            assert(g0.edges[i] == self@.edges[i]);
        }
        r
    }

    /// Adds an edge between two nodes.
    fn push_edge(&mut self, a: usize, b: usize, k: EdgeKind)
        requires
            a < old(self)@.nodes.len(),
            b < old(self)@.nodes.len(),
            old(self)@.nodes.len() < u32::MAX,
            old(self)@.edges.len() + 1 < u32::MAX,
            forall|i: int| 0 <= i < old(self)@.edges.len() ==> #[trigger] old(self)@.edges[i].0 < old(self)@.nodes.len() && old(self)@.edges[i].1 < old(self)@.nodes.len(),
        ensures
            final(self)@ == old(self)@.with_edge(a, b, k),
            forall|i: int| 0 <= i < final(self)@.edges.len() ==> #[trigger] final(self)@.edges[i].0 < final(self)@.nodes.len() && final(self)@.edges[i].1 < final(self)@.nodes.len(),
    {
        add_graph_edge(&mut self.graph, a, b, k);
        assert(self@.edges.last() == (a, b, k));
    }

    fn add_file(&mut self, file: &FileIR)
        requires
            old(self)@.wf(),
            old(self)@.nodes.len() + 1 < u32::MAX,
        ensures
            final(self)@ == spec_add_file(old(self)@, file.path@, file.language),
            final(self)@.wf(),
    {
        let ghost g0 = self@;
        let node = self.push_node(CodeGraphNode::FileNode(FileNodeData { path: file.path.clone(), language: file.language }));
        index_put(&mut self.file_index, file.path.clone(), node);
        proof {
            lemma_index_set(g0.file_index, file.path@, node, g0.nodes.len(), self@.nodes.len());
            lemma_index_wf_grow(g0.symbol_index, g0.nodes.len(), self@.nodes.len());
            lemma_index_wf_grow(g0.endpoint_index, g0.nodes.len(), self@.nodes.len());
        }
    }

    fn add_symbol(&mut self, symbol: &Symbol)
        requires
            old(self)@.wf(),
            old(self)@.nodes.len() + 1 < u32::MAX,
            old(self)@.edges.len() + 2 < u32::MAX,
        ensures
            final(self)@ == spec_add_symbol(old(self)@, symbol@),
            final(self)@.wf(),
    {
        let ghost g0 = self@;
        let key = symbol.id.stable_key();
        let node = self.push_node(CodeGraphNode::SymbolNode(SymbolNodeData {
            symbol_id: key.clone(),
            qualified_name: symbol.qualified_name.clone(),
            kind: symbol.kind,
            visibility: symbol.visibility,
            file: symbol.file.clone(),
        }));
        index_put(&mut self.symbol_index, key, node);
        proof {
            lemma_index_set(g0.symbol_index, id_key(symbol@.id), node, g0.nodes.len(), self@.nodes.len());
            lemma_index_wf_grow(g0.file_index, g0.nodes.len(), self@.nodes.len());
            lemma_index_wf_grow(g0.endpoint_index, g0.nodes.len(), self@.nodes.len());
        }
        let ghost g1 = self@;
        let fkey = chars_of(symbol.file.as_str());
        let fnode = index_get(&self.file_index, &fkey);
        proof { lemma_index_lookup_bound(g1.file_index, symbol@.file, g1.nodes.len()); }
        match fnode {
            Some(f) => self.push_edge(f, node, EdgeKind::Contains),
            None => {},
        }
        let ghost g2 = self@;
        assert(g2 == g1.edge_if(index_lookup(g1.file_index, symbol@.file), node, EdgeKind::Contains, true));
        match &symbol.parent {
            Some(p) => {
                let pk = chars_of(p.stable_key().as_str());
                let pnode = index_get(&self.symbol_index, &pk);
                proof { lemma_index_lookup_bound(g2.symbol_index, pk@, g2.nodes.len()); }
                match pnode {
                    Some(pn) => self.push_edge(pn, node, EdgeKind::Contains),
                    None => {},
                }
            },
            None => {},
        }
        assert(self@.nodes.len() < u32::MAX);
        assert(self@.edges.len() < u32::MAX);
        assert(index_wf(self@.symbol_index, self@.nodes.len()));
        assert(index_wf(self@.file_index, self@.nodes.len()));
        assert(index_wf(self@.endpoint_index, self@.nodes.len()));
    }

    /// The first indexed symbol whose qualified name ends with `name`.
    fn find_symbol_by_name(&self, name: &str) -> (r: Option<usize>)
        requires
            self@.wf(),
        ensures
            r == find_by_name(self@.symbol_index, self@.nodes, name@, 0),
            r matches Some(n) ==> n < self@.nodes.len(),
    {
        let nv = chars_of(name);
        let mut k: usize = 0;
        while k < self.symbol_index.len()
            invariant
                k <= self.symbol_index.len(),
                self@.wf(),
                nv@ == name@,
                find_by_name(self@.symbol_index, self@.nodes, name@, k as int) == find_by_name(self@.symbol_index, self@.nodes, name@, 0),
            decreases self.symbol_index.len() - k,
        {
            let idx = self.symbol_index[k].1;
            assert(self@.symbol_index[k as int].1 == idx);
            assert(idx < self@.nodes.len());
            match graph_node(&self.graph, idx) {
                CodeGraphNode::SymbolNode(d) => {
                    let q = chars_of(d.qualified_name.as_str());
                    assert(self@.nodes[idx as int] == graph_nodes(self.graph)[idx as int]@);
                    if ends_with_vec(&q, &nv) || eq_vec(&q, &nv) {
                        return Some(idx);
                    }
                },
                _ => {
                    assert(self@.nodes[idx as int] == graph_nodes(self.graph)[idx as int]@);
                },
            }
            k = k + 1;
        }
        None
    }

    fn add_reference(&mut self, reference: &Reference)
        requires
            old(self)@.wf(),
            old(self)@.edges.len() + 1 < u32::MAX,
        ensures
            final(self)@ == spec_add_reference(old(self)@, reference@),
            final(self)@.wf(),
    {
        let ghost g0 = self@;
        let sk = chars_of(reference.source.stable_key().as_str());
        let src = match index_get(&self.symbol_index, &sk) {
            Some(n) => n,
            None => return,
        };
        proof { lemma_index_lookup_bound(g0.symbol_index, sk@, g0.nodes.len()); }
        let target = match &reference.target {
            ReferenceTarget::Resolved(t) => {
                let tk = chars_of(t.stable_key().as_str());
                proof { lemma_index_lookup_bound(g0.symbol_index, tk@, g0.nodes.len()); }
                index_get(&self.symbol_index, &tk)
            },
            ReferenceTarget::Unresolved(name) => self.find_symbol_by_name(name.as_str()),
        };
        match target {
            Some(t) => self.push_edge(src, t, edge_kind_exec(reference.kind)),
            None => {},
        }
    }

    fn add_endpoint(&mut self, endpoint: &Endpoint)
        requires
            old(self)@.wf(),
            old(self)@.nodes.len() + 1 < u32::MAX,
            old(self)@.edges.len() + 1 < u32::MAX,
        ensures
            final(self)@ == spec_add_endpoint(old(self)@, endpoint@),
            final(self)@.wf(),
    {
        let ghost g0 = self@;
        let method = endpoint.method.to_string();
        let mut key = chars_of(method.as_str());
        key.push(' ');
        let pv = chars_of(endpoint.path.as_str());
        crate::text::append_vec(&mut key, &pv);
        proof { reveal_strlit(" "); }
        assert(key@ =~= endpoint.method.spec_name() + " "@ + endpoint.path@);
        let node = self.push_node(CodeGraphNode::EndpointNode(EndpointNodeData { method, path: endpoint.path.clone() }));
        index_put(&mut self.endpoint_index, crate::text::string_of(key.as_slice()), node);
        proof {
            lemma_index_set(g0.endpoint_index, key@, node, g0.nodes.len(), self@.nodes.len());
            lemma_index_wf_grow(g0.file_index, g0.nodes.len(), self@.nodes.len());
            lemma_index_wf_grow(g0.symbol_index, g0.nodes.len(), self@.nodes.len());
        }
        let ghost g1 = self@;
        match &endpoint.handler {
            Some(h) => {
                let hk = chars_of(h.stable_key().as_str());
                proof { lemma_index_lookup_bound(g1.symbol_index, hk@, g1.nodes.len()); }
                match index_get(&self.symbol_index, &hk) {
                    Some(hn) => self.push_edge(node, hn, EdgeKind::HandledBy),
                    None => {},
                }
            },
            None => {},
        }
    }

    fn add_dependency(&mut self, dep: &Dependency)
        requires
            old(self)@.wf(),
            old(self)@.nodes.len() + 1 < u32::MAX,
            old(self)@.edges.len() + 1 < u32::MAX,
        ensures
            final(self)@ == spec_add_dependency(old(self)@, dep@),
            final(self)@.wf(),
    {
        let ghost g0 = self@;
        let node = self.push_node(CodeGraphNode::ExternalDep(DepNodeData { name: dep.name.clone(), ecosystem: dep.ecosystem }));
        proof {
            lemma_index_wf_grow(g0.file_index, g0.nodes.len(), self@.nodes.len());
            lemma_index_wf_grow(g0.symbol_index, g0.nodes.len(), self@.nodes.len());
            lemma_index_wf_grow(g0.endpoint_index, g0.nodes.len(), self@.nodes.len());
        }
        let fk = chars_of(dep.source_file.as_str());
        proof { lemma_index_lookup_bound(g0.file_index, fk@, g0.nodes.len()); }
        match index_get(&self.file_index, &fk) {
            Some(f) => self.push_edge(f, node, EdgeKind::DependsOn),
            None => {},
        }
    }
}

fn edge_kind_exec(k: ReferenceKind) -> (r: EdgeKind)
    ensures
        r == edge_kind_of(k),
{
    match k {
        ReferenceKind::Import => EdgeKind::FileImports,
        ReferenceKind::Implements => EdgeKind::Implements,
        ReferenceKind::Extends => EdgeKind::Extends,
        ReferenceKind::UsesType => EdgeKind::UsesType,
        ReferenceKind::FieldType => EdgeKind::FieldType,
        ReferenceKind::Call => EdgeKind::Calls,
        ReferenceKind::AnnotationUsage => EdgeKind::UsesType,
    }
}

// ---------------------------------------------------------------------------
// Reading the graph
// ---------------------------------------------------------------------------

#[derive(Debug, Clone, Copy, PartialEq, Eq, Structural)]
pub enum NodeTag {
    File,
    Symbol,
    Endpoint,
    Dep,
}

pub open spec fn tag_of(v: NodeView) -> NodeTag {
    match v {
        NodeView::File { .. } => NodeTag::File,
        NodeView::Symbol { .. } => NodeTag::Symbol,
        NodeView::Endpoint { .. } => NodeTag::Endpoint,
        NodeView::Dep { .. } => NodeTag::Dep,
    }
}

/// The indices, from `k` on, of the nodes with the tag, in index order.
pub open spec fn indices_from(nodes: Seq<NodeView>, tag: NodeTag, k: int) -> Seq<usize>
    decreases nodes.len() - k,
{
    if k < 0 || k >= nodes.len() {
        Seq::empty()
    } else {
        (if tag_of(nodes[k]) == tag { seq![k as usize] } else { Seq::empty() }) + indices_from(nodes, tag, k + 1)
    }
}

pub open spec fn firsts<T>(v: Seq<(usize, T)>) -> Seq<usize> {
    Seq::new(v.len(), |i: int| v[i].0)
}

/// The number of non-overlapping occurrences of `p` from `i` on (`str::matches(p).count()`).
pub open spec fn count_matches_from(s: Seq<char>, p: Seq<char>, i: int) -> nat
    decreases s.len() - i,
{
    if i < 0 || i > s.len() || p.len() == 0 {
        0
    } else {
        match crate::text::find_from(s, p, i) {
            None => 0,
            Some(k) => {
                proof {
                    crate::text::lemma_find_from_bounds(s, p, i);
                }
                1 + count_matches_from(s, p, k + p.len())
            },
        }
    }
}

/// Whether a node is a module whose qualified name holds `depth` separators.
pub open spec fn is_module_at(v: NodeView, depth: usize) -> bool {
    v matches NodeView::Symbol { qualified_name, kind, .. } && kind == SymbolKind::Module
        && count_matches_from(qualified_name, "::"@, 0) == depth
}

pub open spec fn module_indices(nodes: Seq<NodeView>, depth: usize, k: int) -> Seq<usize>
    decreases nodes.len() - k,
{
    if k < 0 || k >= nodes.len() {
        Seq::empty()
    } else {
        (if is_module_at(nodes[k], depth) { seq![k as usize] } else { Seq::empty() }) + module_indices(nodes, depth, k + 1)
    }
}

/// The tag of an endpoint path: its first non-empty `/`-separated segment, or `default`.
pub open spec fn path_tag(path: Seq<char>) -> Seq<char> {
    let t = crate::text::trim_start_matches(path, "/"@);
    if t.len() == 0 {
        "default"@
    } else {
        crate::text::split_first(t, "/"@)
    }
}

pub open spec fn group_position(gs: Seq<(Seq<char>, Seq<usize>)>, tag: Seq<char>) -> Option<int>
    decreases gs.len(),
{
    if gs.len() == 0 {
        None
    } else if gs.last().0 == tag {
        Some(gs.len() - 1)
    } else {
        group_position(gs.drop_last(), tag)
    }
}

/// The groups with node `i` added under `tag`: to its group, or to a new last group.
pub open spec fn group_add(gs: Seq<(Seq<char>, Seq<usize>)>, tag: Seq<char>, i: usize) -> Seq<(Seq<char>, Seq<usize>)> {
    match group_position(gs, tag) {
        Some(p) => gs.update(p, (tag, gs[p].1.push(i))),
        None => gs.push((tag, seq![i])),
    }
}

/// The endpoints grouped by tag: tags in the order they first appear, the
/// endpoints of each in index order.
pub open spec fn group_endpoints(nodes: Seq<NodeView>, eps: Seq<usize>) -> Seq<(Seq<char>, Seq<usize>)>
    decreases eps.len(),
{
    if eps.len() == 0 {
        Seq::empty()
    } else {
        let i = eps.last();
        let tag = match nodes[i as int] {
            NodeView::Endpoint { path, .. } => path_tag(path),
            _ => "default"@,
        };
        group_add(group_endpoints(nodes, eps.drop_last()), tag, i)
    }
}

/// The nodes pushed for the neighbors of a node, one level deeper.
pub open spec fn pairs(ns: Seq<usize>, depth: usize) -> Seq<(usize, usize)> {
    Seq::new(ns.len(), |i: int| (ns[i], depth))
}

/// The depth-first walk from a stack of (node, depth) pairs: the last pair
/// is taken first; a node deeper than `max` or already visited is skipped;
/// otherwise it is visited and its outgoing neighbors are pushed one level
/// deeper. The walk stops once `n` nodes are visited.
pub open spec fn dfs(es: Seq<(usize, usize, EdgeKind)>, n: nat, visited: Seq<usize>, stack: Seq<(usize, usize)>, max: usize) -> Seq<usize>
    decreases n - visited.len(), stack.len(),
{
    if stack.len() == 0 {
        visited
    } else {
        let node = stack.last().0;
        let depth = stack.last().1;
        let rest = stack.drop_last();
        if depth > max || visited.contains(node) {
            dfs(es, n, visited, rest, max)
        } else if visited.len() >= n {
            visited
        } else {
            dfs(es, n, visited.push(node), rest + pairs(out_neighbors(es, node), (depth + 1) as usize), max)
        }
    }
}

proof fn lemma_out_neighbors_bound(es: Seq<(usize, usize, EdgeKind)>, a: usize, n: nat)
    requires
        forall|i: int| 0 <= i < es.len() ==> #[trigger] es[i].0 < n && es[i].1 < n,
    ensures
        forall|i: int| 0 <= i < out_neighbors(es, a).len() ==> #[trigger] out_neighbors(es, a)[i] < n,
    decreases es.len(),
{
    if es.len() > 0 {
        assert forall|i: int| 0 <= i < es.drop_last().len() implies #[trigger] es.drop_last()[i].0 < n && es.drop_last()[i].1 < n by {
            assert(es.drop_last()[i] == es[i]);
        }
        lemma_out_neighbors_bound(es.drop_last(), a, n);
        assert(es[es.len() - 1].0 < n && es[es.len() - 1].1 < n);
        let head: Seq<usize> = if es.last().0 == a { seq![es.last().1] } else { Seq::empty() };
        assert(out_neighbors(es, a) == head + out_neighbors(es.drop_last(), a));
        assert forall|i: int| 0 <= i < out_neighbors(es, a).len() implies #[trigger] out_neighbors(es, a)[i] < n by {
            if i >= head.len() {
                assert(out_neighbors(es, a)[i] == out_neighbors(es.drop_last(), a)[i - head.len()]);
            }
        }
    }
}

fn contains_node(v: &Vec<usize>, x: usize) -> (r: bool)
    ensures
        r == v@.contains(x),
{
    let mut k: usize = 0;
    while k < v.len()
        invariant
            k <= v.len(),
            forall|j: int| 0 <= j < k ==> v@[j] != x,
        decreases v.len() - k,
    {
        if v[k] == x {
            return true;
        }
        k = k + 1;
    }
    false
}

impl CodeGraph {
    /// The repository's graph: files, symbols, references, endpoints, then
    /// the dependencies of each manifest.
    pub fn build_from_ir(ir: &RepoIR) -> (r: Self)
        requires
            graph_fits(*ir),
        ensures
            r@ == spec_build(*ir),
            r@.wf(),
    {
        let mut g = Self::new();
        let nf = ir.files.len();
        let ns = ir.symbols.len();
        let ghost bound = ir.files@.len() + ir.symbols@.len() + ir.endpoints@.len() + dep_total(ir.manifests@);
        let ghost ebound = 2 * ir.symbols@.len() + ir.references@.len() + ir.endpoints@.len() + dep_total(ir.manifests@);
        let mut k: usize = 0;
        while k < ir.files.len()
            invariant
                k <= ir.files@.len(),
                graph_fits(*ir),
                g@.wf(),
                g@ == add_files(empty_graph(), ir.files@.take(k as int)),
                g@.nodes.len() == k,
                g@.edges.len() == 0,
            decreases ir.files@.len() - k,
        {
            g.add_file(&ir.files[k]);
            assert(ir.files@.take(k + 1).drop_last() =~= ir.files@.take(k as int));
            k = k + 1;
        }
        assert(ir.files@.take(k as int) =~= ir.files@);
        let ghost g_files = g@;
        let ghost sv = symbol_views(ir.symbols@);
        let mut k: usize = 0;
        while k < ir.symbols.len()
            invariant
                k <= ir.symbols@.len(),
                graph_fits(*ir),
                g@.wf(),
                sv == symbol_views(ir.symbols@),
                g@ == add_symbols(g_files, sv.take(k as int)),
                g@.nodes.len() == nf + k,
                nf == ir.files@.len(),
                g@.edges.len() <= 2 * k,
            decreases ir.symbols@.len() - k,
        {
            assert(sv[k as int] == ir.symbols@[k as int]@);
            g.add_symbol(&ir.symbols[k]);
            assert(sv.take(k + 1).drop_last() =~= sv.take(k as int));
            k = k + 1;
        }
        assert(sv.take(k as int) =~= sv);
        let ghost g_syms = g@;
        let ghost rv = reference_views(ir.references@);
        let mut k: usize = 0;
        while k < ir.references.len()
            invariant
                k <= ir.references@.len(),
                graph_fits(*ir),
                g@.wf(),
                rv == reference_views(ir.references@),
                g@ == add_references(g_syms, rv.take(k as int)),
                g@.nodes.len() == nf + ns,
                nf == ir.files@.len(),
                ns == ir.symbols@.len(),
                g@.edges.len() <= 2 * ns + k,
            decreases ir.references@.len() - k,
        {
            assert(rv[k as int] == ir.references@[k as int]@);
            g.add_reference(&ir.references[k]);
            assert(rv.take(k + 1).drop_last() =~= rv.take(k as int));
            k = k + 1;
        }
        assert(rv.take(k as int) =~= rv);
        let ghost g_refs = g@;
        let ghost ev = endpoint_views(ir.endpoints@);
        let nr = ir.references.len();
        let mut k: usize = 0;
        while k < ir.endpoints.len()
            invariant
                k <= ir.endpoints@.len(),
                graph_fits(*ir),
                g@.wf(),
                ev == endpoint_views(ir.endpoints@),
                g@ == add_endpoints(g_refs, ev.take(k as int)),
                g@.nodes.len() == nf + ns + k,
                nf == ir.files@.len(),
                ns == ir.symbols@.len(),
                nr == ir.references@.len(),
                g@.edges.len() <= 2 * ns + nr + k,
            decreases ir.endpoints@.len() - k,
        {
            assert(ev[k as int] == ir.endpoints@[k as int]@);
            g.add_endpoint(&ir.endpoints[k]);
            assert(ev.take(k + 1).drop_last() =~= ev.take(k as int));
            k = k + 1;
        }
        assert(ev.take(k as int) =~= ev);
        let ghost g_eps = g@;
        let ne = ir.endpoints.len();
        let mut m: usize = 0;
        while m < ir.manifests.len()
            invariant
                m <= ir.manifests@.len(),
                graph_fits(*ir),
                g@.wf(),
                g@ == add_manifests(g_eps, ir.manifests@.take(m as int)),
                g@.nodes.len() == nf + ns + ne + dep_total(ir.manifests@.take(m as int)),
                g@.edges.len() <= 2 * ns + nr + ne + dep_total(ir.manifests@.take(m as int)),
                nf == ir.files@.len(),
                ns == ir.symbols@.len(),
                nr == ir.references@.len(),
                ne == ir.endpoints@.len(),
            decreases ir.manifests@.len() - m,
        {
            proof { lemma_dep_total_prefix(ir.manifests@, m as int + 1); }
            assert(ir.manifests@.take(m + 1).drop_last() =~= ir.manifests@.take(m as int));
            let man = &ir.manifests[m];
            let ghost g_m = g@;
            let ghost dv = dep_views(man.dependencies@);
            let mut j: usize = 0;
            while j < man.dependencies.len()
                invariant
                    j <= man.dependencies@.len(),
                    g@.wf(),
                    dv == dep_views(man.dependencies@),
                    g@ == add_dependencies(g_m, dv.take(j as int)),
                    g@.nodes.len() == g_m.nodes.len() + j,
                    g@.edges.len() <= g_m.edges.len() + j,
                    g_m.nodes.len() + man.dependencies@.len() < u32::MAX,
                    g_m.edges.len() + man.dependencies@.len() < u32::MAX,
                decreases man.dependencies@.len() - j,
            {
                assert(dv[j as int] == man.dependencies@[j as int]@);
                g.add_dependency(&man.dependencies[j]);
                assert(dv.take(j + 1).drop_last() =~= dv.take(j as int));
                j = j + 1;
            }
            assert(dv.take(j as int) =~= dv);
            m = m + 1;
        }
        assert(ir.manifests@.take(m as int) =~= ir.manifests@);
        g
    }

    /// The neighbors of a node in one direction, most recently linked first.
    pub fn neighbors(&self, node: usize, direction: GraphDirection) -> (r: Vec<usize>)
        requires
            self@.wf(),
            node < self@.nodes.len(),
        ensures
            r@ == neighbors_of(self@.edges, node, direction),
    {
        graph_neighbors(&self.graph, node, direction)
    }

    pub fn node_count(&self) -> (r: usize)
        ensures
            r == self@.nodes.len(),
    {
        graph_node_count(&self.graph)
    }

    pub fn edge_count(&self) -> (r: usize)
        ensures
            r == self@.edges.len(),
    {
        graph_edge_count(&self.graph)
    }

    /// The weight of a node.
    pub fn node(&self, node: usize) -> (r: &CodeGraphNode)
        requires
            self@.wf(),
            node < self@.nodes.len(),
        ensures
            r@ == self@.nodes[node as int],
    {
        graph_node(&self.graph, node)
    }

    /// The kind of the most recently added edge from `a` to `b`.
    pub fn edge_kind(&self, a: usize, b: usize) -> (r: Option<EdgeKind>)
        requires
            self@.wf(),
            a < self@.nodes.len(),
            b < self@.nodes.len(),
        ensures
            r == last_edge_kind(self@.edges, a, b),
    {
        graph_edge_kind(&self.graph, a, b)
    }

    /// The nodes reached from `root` by a depth-first walk of outgoing edges,
    /// at most `max_depth` edges away, in the order they are visited.
    pub fn subgraph(&self, root: usize, max_depth: usize) -> (r: Vec<usize>)
        requires
            self@.wf(),
            root < self@.nodes.len(),
        ensures
            r@ == dfs(self@.edges, self@.nodes.len(), Seq::empty(), seq![(root, 0usize)], max_depth),
    {
        let n = graph_node_count(&self.graph);
        let ghost es = self@.edges;
        let mut visited: Vec<usize> = Vec::new();
        let mut queue: Vec<(usize, usize)> = Vec::new();
        queue.push((root, 0));
        let ghost target = dfs(es, n as nat, Seq::empty(), seq![(root, 0usize)], max_depth);
        assert(queue@ =~= seq![(root, 0usize)]);
        loop
            invariant
                self@.wf(),
                es == self@.edges,
                n == self@.nodes.len(),
                visited@.len() <= n,
                forall|i: int| 0 <= i < queue@.len() ==> (#[trigger] queue@[i]).0 < n && queue@[i].1 <= visited@.len(),
                dfs(es, n as nat, visited@, queue@, max_depth) == target,
                target == dfs(es, n as nat, Seq::empty(), seq![(root, 0usize)], max_depth),
            ensures
                visited@ == target,
            decreases n - visited@.len(), queue@.len(),
        {
            let ghost q0 = queue@;
            let (node, depth) = match queue.pop() {
                None => break,
                Some(x) => x,
            };
            assert(q0.last() == (node, depth) && q0.drop_last() == queue@);
            if depth > max_depth || contains_node(&visited, node) {
            } else if visited.len() >= n {
                assert(dfs(es, n as nat, visited@, q0, max_depth) == visited@);
                return visited;
            } else {
                visited.push(node);
                let ns = graph_neighbors(&self.graph, node, GraphDirection::Outgoing);
                proof { lemma_out_neighbors_bound(es, node, n as nat); }
                let ghost base = queue@;
                let d1 = depth + 1;
                let mut j: usize = 0;
                while j < ns.len()
                    invariant
                        j <= ns.len(),
                        ns@ == out_neighbors(es, node),
                        queue@ == base + pairs(ns@, d1).take(j as int),
                        forall|i: int| 0 <= i < ns@.len() ==> #[trigger] ns@[i] < n,
                    decreases ns.len() - j,
                {
                    queue.push((ns[j], d1));
                    assert(pairs(ns@, d1).take(j + 1) =~= pairs(ns@, d1).take(j as int).push((ns@[j as int], d1)));
                    j = j + 1;
                }
                assert(pairs(ns@, d1).take(j as int) =~= pairs(ns@, d1));
                assert forall|i: int| 0 <= i < queue@.len() implies (#[trigger] queue@[i]).0 < n && queue@[i].1 <= visited@.len() by {
                    if i >= base.len() {
                        assert(queue@[i] == pairs(ns@, d1)[i - base.len()]);
                    }
                }
            }
        }
        visited
    }
}

proof fn lemma_dep_total_prefix(ms: Seq<ManifestInfo>, m: int)
    requires
        0 <= m <= ms.len(),
    ensures
        dep_total(ms.take(m)) <= dep_total(ms),
    decreases ms.len() - m,
{
    if m < ms.len() {
        lemma_dep_total_prefix(ms, m + 1);
        assert(ms.take(m + 1).drop_last() =~= ms.take(m));
    } else {
        assert(ms.take(m) =~= ms);
    }
}

/// The indices below `k` of the nodes with the tag, in index order.
pub open spec fn indices_below(nodes: Seq<NodeView>, tag: NodeTag, k: int) -> Seq<usize>
    decreases k,
{
    if k <= 0 || k > nodes.len() {
        Seq::empty()
    } else {
        indices_below(nodes, tag, k - 1) + (if tag_of(nodes[k - 1]) == tag { seq![(k - 1) as usize] } else { Seq::empty() })
    }
}

/// The indices below `k` of the modules at the depth.
pub open spec fn modules_below(nodes: Seq<NodeView>, depth: usize, k: int) -> Seq<usize>
    decreases k,
{
    if k <= 0 || k > nodes.len() {
        Seq::empty()
    } else {
        modules_below(nodes, depth, k - 1) + (if is_module_at(nodes[k - 1], depth) { seq![(k - 1) as usize] } else { Seq::empty() })
    }
}

pub open spec fn group_views(g: Seq<(String, Vec<(usize, &EndpointNodeData)>)>) -> Seq<(Seq<char>, Seq<usize>)> {
    Seq::new(g.len(), |i: int| (g[i].0@, firsts(g[i].1@)))
}

pub proof fn lemma_group_position(gs: Seq<(Seq<char>, Seq<usize>)>, tag: Seq<char>)
    ensures
        group_position(gs, tag) matches Some(p) ==> 0 <= p < gs.len() && gs[p].0 == tag,
    decreases gs.len(),
{
    if gs.len() > 0 && gs.last().0 != tag {
        lemma_group_position(gs.drop_last(), tag);
    }
}

fn count_matches(s: &Vec<char>, p: &Vec<char>) -> (r: usize)
    requires
        p.len() > 0,
    ensures
        r == count_matches_from(s@, p@, 0),
{
    let mut i: usize = 0;
    let mut c: usize = 0;
    loop
        invariant
            i <= s.len(),
            p.len() > 0,
            c <= i,
            c + count_matches_from(s@, p@, i as int) == count_matches_from(s@, p@, 0),
        decreases s.len() - i,
    {
        match crate::text::find_from_vec(s, p, i) {
            None => {
                return c;
            },
            Some(k) => {
                proof { crate::text::lemma_find_from_bounds(s@, p@, i as int); }
                c = c + 1;
                i = k + p.len();
            },
        }
    }
}

fn path_tag_exec(path: &str) -> (r: Vec<char>)
    ensures
        r@ == path_tag(path@),
{
    let v = chars_of(path);
    let slash = chars_of("/");
    let t = crate::text::trim_start_matches_vec(&v, &slash);
    if t.len() == 0 {
        chars_of("default")
    } else {
        crate::text::split_first_vec(&t, &slash)
    }
}

impl CodeGraph {
    /// The symbol nodes, in index order.
    pub fn symbol_nodes(&self) -> (r: Vec<(usize, &SymbolNodeData)>)
        requires
            self@.wf(),
        ensures
            firsts(r@) == indices_below(self@.nodes, NodeTag::Symbol, self@.nodes.len() as int),
            forall|j: int| 0 <= j < r@.len() ==> self@.nodes[(#[trigger] r@[j]).0 as int] == CodeGraphNode::SymbolNode(*r@[j].1)@,
    {
        let n = graph_node_count(&self.graph);
        let mut r: Vec<(usize, &SymbolNodeData)> = Vec::new();
        let mut k: usize = 0;
        while k < n
            invariant
                k <= n,
                n == self@.nodes.len(),
                self@.wf(),
                firsts(r@) == indices_below(self@.nodes, NodeTag::Symbol, k as int),
                forall|j: int| 0 <= j < r@.len() ==> self@.nodes[(#[trigger] r@[j]).0 as int] == CodeGraphNode::SymbolNode(*r@[j].1)@,
            decreases n - k,
        {
            let w = graph_node(&self.graph, k);
            assert(self@.nodes[k as int] == w@);
            match w {
                CodeGraphNode::SymbolNode(d) => {
                    r.push((k, d));
                    assert(firsts(r@) =~= indices_below(self@.nodes, NodeTag::Symbol, k as int + 1));
                },
                _ => {
                    assert(firsts(r@) =~= indices_below(self@.nodes, NodeTag::Symbol, k as int + 1));
                },
            }
            k = k + 1;
        }
        r
    }

    /// The file nodes, in index order.
    pub fn file_nodes(&self) -> (r: Vec<(usize, &FileNodeData)>)
        requires
            self@.wf(),
        ensures
            firsts(r@) == indices_below(self@.nodes, NodeTag::File, self@.nodes.len() as int),
            forall|j: int| 0 <= j < r@.len() ==> self@.nodes[(#[trigger] r@[j]).0 as int] == CodeGraphNode::FileNode(*r@[j].1)@,
    {
        let n = graph_node_count(&self.graph);
        let mut r: Vec<(usize, &FileNodeData)> = Vec::new();
        let mut k: usize = 0;
        while k < n
            invariant
                k <= n,
                n == self@.nodes.len(),
                self@.wf(),
                firsts(r@) == indices_below(self@.nodes, NodeTag::File, k as int),
                forall|j: int| 0 <= j < r@.len() ==> self@.nodes[(#[trigger] r@[j]).0 as int] == CodeGraphNode::FileNode(*r@[j].1)@,
            decreases n - k,
        {
            let w = graph_node(&self.graph, k);
            assert(self@.nodes[k as int] == w@);
            match w {
                CodeGraphNode::FileNode(d) => {
                    r.push((k, d));
                    assert(firsts(r@) =~= indices_below(self@.nodes, NodeTag::File, k as int + 1));
                },
                _ => {
                    assert(firsts(r@) =~= indices_below(self@.nodes, NodeTag::File, k as int + 1));
                },
            }
            k = k + 1;
        }
        r
    }

    /// The endpoint nodes, in index order.
    pub fn endpoint_nodes(&self) -> (r: Vec<(usize, &EndpointNodeData)>)
        requires
            self@.wf(),
        ensures
            firsts(r@) == indices_below(self@.nodes, NodeTag::Endpoint, self@.nodes.len() as int),
            forall|j: int| 0 <= j < r@.len() ==> self@.nodes[(#[trigger] r@[j]).0 as int] == CodeGraphNode::EndpointNode(*r@[j].1)@,
    {
        let n = graph_node_count(&self.graph);
        let mut r: Vec<(usize, &EndpointNodeData)> = Vec::new();
        let mut k: usize = 0;
        while k < n
            invariant
                k <= n,
                n == self@.nodes.len(),
                self@.wf(),
                firsts(r@) == indices_below(self@.nodes, NodeTag::Endpoint, k as int),
                forall|j: int| 0 <= j < r@.len() ==> self@.nodes[(#[trigger] r@[j]).0 as int] == CodeGraphNode::EndpointNode(*r@[j].1)@,
            decreases n - k,
        {
            let w = graph_node(&self.graph, k);
            assert(self@.nodes[k as int] == w@);
            match w {
                CodeGraphNode::EndpointNode(d) => {
                    r.push((k, d));
                    assert(firsts(r@) =~= indices_below(self@.nodes, NodeTag::Endpoint, k as int + 1));
                },
                _ => {
                    assert(firsts(r@) =~= indices_below(self@.nodes, NodeTag::Endpoint, k as int + 1));
                },
            }
            k = k + 1;
        }
        r
    }

    /// The module symbols whose qualified names hold `target_depth` `::` separators.
    pub fn modules_at_depth(&self, target_depth: usize) -> (r: Vec<(usize, &SymbolNodeData)>)
        requires
            self@.wf(),
        ensures
            firsts(r@) == modules_below(self@.nodes, target_depth, self@.nodes.len() as int),
            forall|j: int| 0 <= j < r@.len() ==> self@.nodes[(#[trigger] r@[j]).0 as int] == CodeGraphNode::SymbolNode(*r@[j].1)@,
    {
        let n = graph_node_count(&self.graph);
        let sep = chars_of("::");
        proof { reveal_strlit("::"); }
        let mut r: Vec<(usize, &SymbolNodeData)> = Vec::new();
        let mut k: usize = 0;
        while k < n
            invariant
                k <= n,
                n == self@.nodes.len(),
                self@.wf(),
                sep@ == "::"@,
                sep@.len() == 2,
                firsts(r@) == modules_below(self@.nodes, target_depth, k as int),
                forall|j: int| 0 <= j < r@.len() ==> self@.nodes[(#[trigger] r@[j]).0 as int] == CodeGraphNode::SymbolNode(*r@[j].1)@,
            decreases n - k,
        {
            let w = graph_node(&self.graph, k);
            assert(self@.nodes[k as int] == w@);
            match w {
                CodeGraphNode::SymbolNode(d) => {
                    let q = chars_of(d.qualified_name.as_str());
                    if matches!(d.kind, SymbolKind::Module) && count_matches(&q, &sep) == target_depth {
                        r.push((k, d));
                    }
                    assert(firsts(r@) =~= modules_below(self@.nodes, target_depth, k as int + 1));
                },
                _ => {
                    assert(firsts(r@) =~= modules_below(self@.nodes, target_depth, k as int + 1));
                },
            }
            k = k + 1;
        }
        r
    }

    /// The endpoints grouped by the first segment of their path (`default`
    /// where there is none): tags in the order they first appear.
    pub fn endpoints_by_tag(&self) -> (r: Vec<(String, Vec<(usize, &EndpointNodeData)>)>)
        requires
            self@.wf(),
        ensures
            group_views(r@) == group_endpoints(self@.nodes, indices_below(self@.nodes, NodeTag::Endpoint, self@.nodes.len() as int)),
            forall|g: int, j: int| 0 <= g < r@.len() && 0 <= j < r@[g].1@.len() ==>
                self@.nodes[(#[trigger] r@[g].1@[j]).0 as int] == CodeGraphNode::EndpointNode(*r@[g].1@[j].1)@,
    {
        let n = graph_node_count(&self.graph);
        let mut groups: Vec<(String, Vec<(usize, &EndpointNodeData)>)> = Vec::new();
        let mut k: usize = 0;
        while k < n
            invariant
                k <= n,
                n == self@.nodes.len(),
                self@.wf(),
                group_views(groups@) == group_endpoints(self@.nodes, indices_below(self@.nodes, NodeTag::Endpoint, k as int)),
                forall|g: int, j: int| 0 <= g < groups@.len() && 0 <= j < groups@[g].1@.len() ==>
                    self@.nodes[(#[trigger] groups@[g].1@[j]).0 as int] == CodeGraphNode::EndpointNode(*groups@[g].1@[j].1)@,
            decreases n - k,
        {
            let w = graph_node(&self.graph, k);
            assert(self@.nodes[k as int] == w@);
            let ghost eps = indices_below(self@.nodes, NodeTag::Endpoint, k as int);
            match w {
                CodeGraphNode::EndpointNode(d) => {
                    assert(indices_below(self@.nodes, NodeTag::Endpoint, k as int + 1) == eps.push(k));
                    assert(eps.push(k).drop_last() =~= eps);
                    let tag = path_tag_exec(d.path.as_str());
                    let ghost gv = group_views(groups@);
                    // find the tag's group
                    let mut p: usize = groups.len();
                    let mut found = false;
                    assert(gv.take(p as int) =~= gv);
                    loop
                        invariant_except_break
                            group_position(gv, tag@) == group_position(gv.take(p as int), tag@),
                            !found,
                        invariant
                            p <= groups.len(),
                            gv == group_views(groups@),
                        ensures
                            found ==> 0 < p <= groups.len() && group_position(gv, tag@) == Some(p - 1),
                            !found ==> group_position(gv, tag@) is None,
                        decreases p,
                    {
                        if p == 0 {
                            assert(gv.take(0) =~= Seq::<(Seq<char>, Seq<usize>)>::empty());
                            break;
                        }
                        let t = chars_of(groups[p - 1].0.as_str());
                        assert(gv.take(p as int).last() == gv[p - 1]);
                        if crate::text::eq_vec(&t, &tag) {
                            found = true;
                            break;
                        }
                        assert(gv.take(p as int).drop_last() =~= gv.take(p - 1));
                        p = p - 1;
                    }
                    if found {
                        let q = p - 1;
                        assert(group_position(gv, tag@) == Some(q as int));
                        proof { lemma_group_position(gv, tag@); }
                        let mut inner: Vec<(usize, &EndpointNodeData)> = Vec::new();
                        let mut j: usize = 0;
                        while j < groups[q].1.len()
                            invariant
                                j <= groups@[q as int].1@.len(),
                                q < groups@.len(),
                                inner@ == groups@[q as int].1@.take(j as int),
                            decreases groups@[q as int].1@.len() - j,
                        {
                            inner.push(groups[q].1[j]);
                            assert(inner@ =~= groups@[q as int].1@.take(j + 1));
                            j = j + 1;
                        }
                        assert(inner@ =~= groups@[q as int].1@);
                        inner.push((k, d));
                        let name = groups[q].0.clone();
                        let ghost before = groups@;
                        groups.set(q, (name, inner));
                        assert(firsts(inner@) =~= gv[q as int].1.push(k));
                        assert(group_views(groups@) =~= gv.update(q as int, (tag@, gv[q as int].1.push(k))));
                        assert forall|g: int, jj: int| 0 <= g < groups@.len() && 0 <= jj < groups@[g].1@.len() implies
                            self@.nodes[(#[trigger] groups@[g].1@[jj]).0 as int] == CodeGraphNode::EndpointNode(*groups@[g].1@[jj].1)@ by {
                            if g != q as int {
                                assert(groups@[g] == before[g]);
                            } else if jj < before[g].1@.len() {
                                assert(groups@[g].1@[jj] == before[g].1@[jj]);
                            }
                        }
                    } else {
                        let mut inner: Vec<(usize, &EndpointNodeData)> = Vec::new();
                        inner.push((k, d));
                        let ghost before = groups@;
                        groups.push((crate::text::string_of(tag.as_slice()), inner));
                        assert(firsts(inner@) =~= seq![k]);
                        assert(group_views(groups@) =~= gv.push((tag@, seq![k])));
                        assert forall|g: int, jj: int| 0 <= g < groups@.len() && 0 <= jj < groups@[g].1@.len() implies
                            self@.nodes[(#[trigger] groups@[g].1@[jj]).0 as int] == CodeGraphNode::EndpointNode(*groups@[g].1@[jj].1)@ by {
                            if g < before.len() {
                                assert(groups@[g] == before[g]);
                            }
                        }
                    }
                },
                _ => {
                    assert(indices_below(self@.nodes, NodeTag::Endpoint, k as int + 1) =~= eps);
                },
            }
            k = k + 1;
        }
        groups
    }
}

pub proof fn lemma_indices_below_bound(nodes: Seq<NodeView>, tag: NodeTag, k: int)
    ensures
        forall|i: int| 0 <= i < indices_below(nodes, tag, k).len() ==> #[trigger] indices_below(nodes, tag, k)[i] < nodes.len(),
    decreases k,
{
    if 0 < k <= nodes.len() {
        lemma_indices_below_bound(nodes, tag, k - 1);
        let prev = indices_below(nodes, tag, k - 1);
        assert forall|i: int| 0 <= i < indices_below(nodes, tag, k).len() implies #[trigger] indices_below(nodes, tag, k)[i] < nodes.len() by {
            if i < prev.len() {
                assert(indices_below(nodes, tag, k)[i] == prev[i]);
            }
        }
    }
}

/// The neighbors of a node of a well-formed graph are nodes.
pub proof fn lemma_neighbors_bound(es: Seq<(usize, usize, EdgeKind)>, a: usize, n: nat)
    requires
        forall|i: int| 0 <= i < es.len() ==> #[trigger] es[i].0 < n && es[i].1 < n,
    ensures
        forall|i: int| 0 <= i < out_neighbors(es, a).len() ==> #[trigger] out_neighbors(es, a)[i] < n,
        forall|i: int| 0 <= i < in_neighbors(es, a).len() ==> #[trigger] in_neighbors(es, a)[i] < n,
    decreases es.len(),
{
    lemma_out_neighbors_bound(es, a, n);
    if es.len() > 0 {
        assert forall|i: int| 0 <= i < es.drop_last().len() implies #[trigger] es.drop_last()[i].0 < n && es.drop_last()[i].1 < n by {
            assert(es.drop_last()[i] == es[i]);
        }
        lemma_neighbors_bound(es.drop_last(), a, n);
        assert(es[es.len() - 1].0 < n && es[es.len() - 1].1 < n);
        let head: Seq<usize> = if es.last().1 == a { seq![es.last().0] } else { Seq::empty() };
        assert(in_neighbors(es, a) == head + in_neighbors(es.drop_last(), a));
        assert forall|i: int| 0 <= i < in_neighbors(es, a).len() implies #[trigger] in_neighbors(es, a)[i] < n by {
            if i >= head.len() {
                assert(in_neighbors(es, a)[i] == in_neighbors(es.drop_last(), a)[i - head.len()]);
            }
        }
    }
}

// ---------------------------------------------------------------------------
// Laws of the graph
// ---------------------------------------------------------------------------

pub open spec fn file_node_views(fs: Seq<FileIR>) -> Seq<NodeView> {
    Seq::new(fs.len(), |i: int| NodeView::File { path: fs[i].path@, language: fs[i].language })
}

pub open spec fn symbol_node_views(ss: Seq<SymbolView>) -> Seq<NodeView> {
    Seq::new(ss.len(), |i: int| NodeView::Symbol {
        symbol_id: id_key(ss[i].id),
        qualified_name: ss[i].qualified_name,
        kind: ss[i].kind,
        visibility: ss[i].visibility,
        file: ss[i].file,
    })
}

pub open spec fn endpoint_node_views(es: Seq<EndpointView>) -> Seq<NodeView> {
    Seq::new(es.len(), |i: int| NodeView::Endpoint { method: es[i].method.spec_name(), path: es[i].path })
}

pub open spec fn dep_node_views(ds: Seq<DependencyView>) -> Seq<NodeView> {
    Seq::new(ds.len(), |i: int| NodeView::Dep { name: ds[i].name, ecosystem: ds[i].ecosystem })
}

/// The dependency nodes of the manifests, manifest by manifest.
pub open spec fn manifest_node_views(ms: Seq<ManifestInfo>) -> Seq<NodeView>
    decreases ms.len(),
{
    if ms.len() == 0 {
        Seq::empty()
    } else {
        manifest_node_views(ms.drop_last()) + dep_node_views(dep_views(ms.last().dependencies@))
    }
}

proof fn lemma_add_files_nodes(g: GraphView, fs: Seq<FileIR>)
    ensures
        add_files(g, fs).nodes == g.nodes + file_node_views(fs),
    decreases fs.len(),
{
    if fs.len() > 0 {
        lemma_add_files_nodes(g, fs.drop_last());
        assert(file_node_views(fs) =~= file_node_views(fs.drop_last()).push(NodeView::File { path: fs.last().path@, language: fs.last().language }));
    } else {
        assert(g.nodes + file_node_views(fs) =~= g.nodes);
    }
}

proof fn lemma_add_symbols_nodes(g: GraphView, ss: Seq<SymbolView>)
    ensures
        add_symbols(g, ss).nodes == g.nodes + symbol_node_views(ss),
    decreases ss.len(),
{
    if ss.len() > 0 {
        lemma_add_symbols_nodes(g, ss.drop_last());
        let prev = add_symbols(g, ss.drop_last());
        let s = ss.last();
        let n = prev.nodes.len() as usize;
        let key = id_key(s.id);
        let g1 = GraphView {
            nodes: prev.nodes.push(NodeView::Symbol { symbol_id: key, qualified_name: s.qualified_name, kind: s.kind, visibility: s.visibility, file: s.file }),
            symbol_index: index_set(prev.symbol_index, key, n),
            ..prev
        };
        let g2 = g1.edge_if(index_lookup(g1.file_index, s.file), n, EdgeKind::Contains, true);
        assert(g2.nodes == g1.nodes);
        assert(symbol_node_views(ss) =~= symbol_node_views(ss.drop_last()).push(NodeView::Symbol {
            symbol_id: key,
            qualified_name: s.qualified_name,
            kind: s.kind,
            visibility: s.visibility,
            file: s.file,
        }));
    } else {
        assert(g.nodes + symbol_node_views(ss) =~= g.nodes);
    }
}

proof fn lemma_add_references_nodes(g: GraphView, rs: Seq<ReferenceView>)
    ensures
        add_references(g, rs).nodes == g.nodes,
    decreases rs.len(),
{
    if rs.len() > 0 {
        lemma_add_references_nodes(g, rs.drop_last());
    }
}

proof fn lemma_add_endpoints_nodes(g: GraphView, es: Seq<EndpointView>)
    ensures
        add_endpoints(g, es).nodes == g.nodes + endpoint_node_views(es),
    decreases es.len(),
{
    if es.len() > 0 {
        lemma_add_endpoints_nodes(g, es.drop_last());
        assert(endpoint_node_views(es) =~= endpoint_node_views(es.drop_last()).push(NodeView::Endpoint {
            method: es.last().method.spec_name(),
            path: es.last().path,
        }));
    } else {
        assert(g.nodes + endpoint_node_views(es) =~= g.nodes);
    }
}

proof fn lemma_add_dependencies_nodes(g: GraphView, ds: Seq<DependencyView>)
    ensures
        add_dependencies(g, ds).nodes == g.nodes + dep_node_views(ds),
    decreases ds.len(),
{
    if ds.len() > 0 {
        lemma_add_dependencies_nodes(g, ds.drop_last());
        assert(dep_node_views(ds) =~= dep_node_views(ds.drop_last()).push(NodeView::Dep { name: ds.last().name, ecosystem: ds.last().ecosystem }));
    } else {
        assert(g.nodes + dep_node_views(ds) =~= g.nodes);
    }
}

proof fn lemma_add_manifests_nodes(g: GraphView, ms: Seq<ManifestInfo>)
    ensures
        add_manifests(g, ms).nodes == g.nodes + manifest_node_views(ms),
        manifest_node_views(ms).len() == dep_total(ms),
    decreases ms.len(),
{
    if ms.len() > 0 {
        lemma_add_manifests_nodes(g, ms.drop_last());
        lemma_add_dependencies_nodes(add_manifests(g, ms.drop_last()), dep_views(ms.last().dependencies@));
        assert(g.nodes + manifest_node_views(ms) =~= g.nodes + manifest_node_views(ms.drop_last()) + dep_node_views(dep_views(ms.last().dependencies@)));
    } else {
        assert(g.nodes + manifest_node_views(ms) =~= g.nodes);
    }
}

/// The graph of a repository has one node per file, then one per symbol,
/// one per endpoint and one per dependency, in that order; so its size is
/// their sum.
pub proof fn law_build_nodes(ir: RepoIR)
    ensures
        spec_build(ir).nodes == file_node_views(ir.files@) + symbol_node_views(symbol_views(ir.symbols@))
            + endpoint_node_views(endpoint_views(ir.endpoints@)) + manifest_node_views(ir.manifests@),
        spec_build(ir).nodes.len() == ir.files@.len() + ir.symbols@.len() + ir.endpoints@.len() + dep_total(ir.manifests@),
{
    let g0 = add_files(empty_graph(), ir.files@);
    lemma_add_files_nodes(empty_graph(), ir.files@);
    let g1 = add_symbols(g0, symbol_views(ir.symbols@));
    lemma_add_symbols_nodes(g0, symbol_views(ir.symbols@));
    let g2 = add_references(g1, reference_views(ir.references@));
    lemma_add_references_nodes(g1, reference_views(ir.references@));
    let g3 = add_endpoints(g2, endpoint_views(ir.endpoints@));
    lemma_add_endpoints_nodes(g2, endpoint_views(ir.endpoints@));
    lemma_add_manifests_nodes(g3, ir.manifests@);
    assert(empty_graph().nodes + file_node_views(ir.files@) =~= file_node_views(ir.files@));
}

/// A walk from a set of visited nodes without repeats keeps them, in order,
/// at its start, and repeats no node.
proof fn lemma_dfs_distinct(es: Seq<(usize, usize, EdgeKind)>, n: nat, visited: Seq<usize>, stack: Seq<(usize, usize)>, max: usize)
    requires
        visited.no_duplicates(),
    ensures
        dfs(es, n, visited, stack, max).no_duplicates(),
        visited.len() <= dfs(es, n, visited, stack, max).len(),
        dfs(es, n, visited, stack, max).take(visited.len() as int) == visited,
    decreases n - visited.len(), stack.len(),
{
    let r = dfs(es, n, visited, stack, max);
    if stack.len() == 0 {
        assert(r.take(visited.len() as int) =~= visited);
    } else {
        let node = stack.last().0;
        let depth = stack.last().1;
        let rest = stack.drop_last();
        if depth > max || visited.contains(node) {
            lemma_dfs_distinct(es, n, visited, rest, max);
        } else if visited.len() >= n {
            assert(r.take(visited.len() as int) =~= visited);
        } else {
            let v2 = visited.push(node);
            assert(v2.no_duplicates()) by {
                assert forall|i: int, j: int| 0 <= i < v2.len() && 0 <= j < v2.len() && i != j implies v2[i] != v2[j] by {
                    if i == visited.len() as int {
                        assert(visited.contains(v2[j]));
                    } else if j == visited.len() as int {
                        assert(visited.contains(v2[i]));
                    }
                }
            }
            lemma_dfs_distinct(es, n, v2, rest + pairs(out_neighbors(es, node), (depth + 1) as usize), max);
            assert(r.take(v2.len() as int).take(visited.len() as int) =~= r.take(visited.len() as int));
            assert(v2.take(visited.len() as int) =~= visited);
        }
    }
}

/// A subgraph walk visits no node twice and, within a graph that has the
/// root, starts at the root.
pub proof fn law_subgraph_walk(es: Seq<(usize, usize, EdgeKind)>, n: nat, root: usize, max: usize)
    requires
        root < n,
    ensures
        dfs(es, n, Seq::empty(), seq![(root, 0usize)], max).no_duplicates(),
        dfs(es, n, Seq::empty(), seq![(root, 0usize)], max).len() >= 1,
        dfs(es, n, Seq::empty(), seq![(root, 0usize)], max)[0] == root,
{
    let st = seq![(root, 0usize)];
    assert(st.drop_last() =~= Seq::<(usize, usize)>::empty());
    assert(!Seq::<usize>::empty().contains(root));
    let v1 = Seq::<usize>::empty().push(root);
    let rest = Seq::<(usize, usize)>::empty() + pairs(out_neighbors(es, root), 1usize);
    assert(dfs(es, n, Seq::empty(), st, max) == dfs(es, n, v1, st.drop_last() + pairs(out_neighbors(es, root), 1usize), max));
    assert(v1.no_duplicates());
    lemma_dfs_distinct(es, n, v1, st.drop_last() + pairs(out_neighbors(es, root), 1usize), max);
    lemma_dfs_distinct(es, n, Seq::empty(), st, max);
    let r = dfs(es, n, v1, st.drop_last() + pairs(out_neighbors(es, root), 1usize), max);
    assert(r.take(1)[0] == r[0]);
}

} // verus!
