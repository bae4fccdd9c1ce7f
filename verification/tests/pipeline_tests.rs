use memoryos_wiki_gen::cache::CacheStore;
use memoryos_wiki_gen::config::{LlmConfig, WikiGenConfig};
use memoryos_wiki_gen::diagram::DiagramGenerator;
use memoryos_wiki_gen::discovery::{is_extra_excluded, FileDiscovery};
use memoryos_wiki_gen::evidence::{build_evidence_pack, format_evidence_prompt, LlmDocResult};
use memoryos_wiki_gen::export::ExportOrchestrator;
use memoryos_wiki_gen::generator::WikiGenerator;
use memoryos_wiki_gen::graph::{CodeGraph, GraphDirection};
use memoryos_wiki_gen::ir::{
    ApiSpec, AuthInfo, Doc, DocFormat, Endpoint, EndpointSource, FileIR, HttpMethod, Language,
    ManifestInfo, ParseStatus, Reference, ReferenceKind, ReferenceTarget, RepoIR, Span, SpecKind,
    Symbol, SymbolId, SymbolKind, Visibility, Ecosystem,
};
use memoryos_wiki_gen::json::JsonValue;
use memoryos_wiki_gen::lang::FileType;
use memoryos_wiki_gen::llm_gen::{extract_imports, reply_json_part, LlmDocGenerator};
use memoryos_wiki_gen::page_builder::{collect_modules, count_languages, GeneratedPage, PageBuilder};
use memoryos_wiki_gen::storage::{
    path_starts_with_exec, GitAuth, GitConnector, LocalConnector, NfsConnector, SmbConnector,
};
use memoryos_wiki_gen::wiki_index::WikiIndex;

fn make_symbol(name: &str, kind: SymbolKind, vis: Visibility, file: &str) -> Symbol {
    Symbol {
        id: SymbolId::new(file.to_string(), 0, 100, kind, name.to_string()),
        kind,
        qualified_name: name.to_string(),
        visibility: vis,
        file: file.to_string(),
        span: Span::new(0, 100, 1, 10),
        signature: Some(format!("{} {}", kind.to_string(), name)),
        doc: Some(Doc {
            raw: format!("Documentation for {}", name),
            format: DocFormat::RustDoc,
            summary: Some(format!("Summary of {}", name)),
        }),
        parent: None,
        children: Vec::new(),
        annotations: Vec::new(),
        type_params: Vec::new(),
    }
}

fn make_ir() -> RepoIR {
    let mut ir = RepoIR::new("/test/repo".to_string());
    ir.files.push(FileIR {
        path: "src/lib.rs".to_string(),
        language: Language::Rust,
        content_hash: "abc123".to_string(),
        parse_status: ParseStatus::Success,
        byte_count: 1000,
    });
    ir.files.push(FileIR {
        path: "src/main.rs".to_string(),
        language: Language::Rust,
        content_hash: "def456".to_string(),
        parse_status: ParseStatus::Success,
        byte_count: 500,
    });
    ir.symbols.push(make_symbol("MyStruct", SymbolKind::Struct, Visibility::Public, "src/lib.rs"));
    ir.symbols.push(make_symbol("MyTrait", SymbolKind::Trait, Visibility::Public, "src/lib.rs"));
    ir.symbols.push(make_symbol("my_function", SymbolKind::Function, Visibility::Public, "src/main.rs"));
    ir.symbols.push(make_symbol("_private_fn", SymbolKind::Function, Visibility::Private, "src/main.rs"));
    ir.references.push(Reference {
        source: ir.symbols[2].id.clone(),
        target: ReferenceTarget::Unresolved("MyStruct".to_string()),
        kind: ReferenceKind::UsesType,
        span: Span::new(10, 20, 2, 2),
    });
    ir
}

fn endpoint(method: HttpMethod, path: &str, handler: Option<SymbolId>) -> Endpoint {
    Endpoint {
        method,
        path: path.to_string(),
        handler,
        source: EndpointSource::CodeExtraction("test".to_string()),
        file: "src/main.rs".to_string(),
        span: Span::new(0, 50, 1, 5),
        request_type: None,
        response_type: None,
        auth: AuthInfo::default(),
        tags: Vec::new(),
        doc: None,
    }
}

// ── Graph ────────────────────────────────────────────────────────

#[test]
fn test_code_graph_new() {
    let graph = CodeGraph::new();
    assert_eq!(graph.node_count(), 0);
    assert_eq!(graph.edge_count(), 0);
}

#[test]
fn test_code_graph_build_from_ir() {
    let ir = make_ir();
    let graph = CodeGraph::build_from_ir(&ir);
    assert!(graph.node_count() > 0);
    assert_eq!(graph.file_nodes().len(), 2);
    assert_eq!(graph.symbol_nodes().len(), 4);
}

#[test]
fn test_code_graph_file_contains_symbol_edges() {
    let ir = make_ir();
    let graph = CodeGraph::build_from_ir(&ir);
    assert!(graph.edge_count() > 0);
}

#[test]
fn test_code_graph_endpoint_nodes() {
    let mut ir = make_ir();
    let h = ir.symbols[2].id.clone();
    ir.endpoints.push(endpoint(HttpMethod::Get, "/api/test", Some(h)));
    let graph = CodeGraph::build_from_ir(&ir);
    assert_eq!(graph.endpoint_nodes().len(), 1);
}

#[test]
fn test_code_graph_subgraph() {
    let ir = make_ir();
    let graph = CodeGraph::build_from_ir(&ir);
    let file_nodes = graph.file_nodes();
    if let Some((idx, _)) = file_nodes.first() {
        let sub = graph.subgraph(*idx, 2);
        assert!(!sub.is_empty());
    }
}

#[test]
fn test_code_graph_endpoints_by_tag() {
    let mut ir = make_ir();
    ir.endpoints.push(endpoint(HttpMethod::Get, "/api/users", None));
    ir.endpoints.push(endpoint(HttpMethod::Post, "/api/users", None));
    let graph = CodeGraph::build_from_ir(&ir);
    let by_tag = graph.endpoints_by_tag();
    assert!(by_tag.iter().any(|(tag, _)| tag == "api"));
}

#[test]
fn graph_node_count_is_files_symbols_endpoints_and_dependencies() {
    let mut ir = make_ir();
    ir.endpoints.push(endpoint(HttpMethod::Get, "/a", None));
    let graph = CodeGraph::build_from_ir(&ir);
    assert_eq!(graph.node_count(), 2 + 4 + 1);
}

// ── Evidence ─────────────────────────────────────────────────────

#[test]
fn test_build_evidence_pack() {
    let ir = make_ir();
    let graph = CodeGraph::build_from_ir(&ir);
    let source = "pub struct MyStruct {\n    field: String,\n}\n";
    let imports = "use std::string::String;\n";
    let pack = build_evidence_pack(&ir.symbols[0], source, &graph, imports);
    assert_eq!(pack.symbol.qualified_name, "MyStruct");
    assert_eq!(pack.symbol.kind, "struct");
    assert!(!pack.source_snippet.is_empty());
    assert!(!pack.file_context.is_empty());
}

#[test]
fn test_format_evidence_prompt() {
    let ir = make_ir();
    let graph = CodeGraph::build_from_ir(&ir);
    let source = "pub struct MyStruct {}\n";
    let pack = build_evidence_pack(&ir.symbols[0], source, &graph, "");
    let prompt = format_evidence_prompt(&pack);
    assert!(prompt.contains("MyStruct"));
    assert!(prompt.contains("struct"));
    assert!(prompt.contains("Source Code"));
}

// ── Diagrams over the graph ──────────────────────────────────────

#[test]
fn test_module_dependency_diagram() {
    let ir = make_ir();
    let graph = CodeGraph::build_from_ir(&ir);
    let diagram = DiagramGenerator::module_dependency_diagram(&graph);
    assert!(diagram.starts_with("graph TD"));
}

#[test]
fn test_api_flow_diagram_empty() {
    let graph = CodeGraph::new();
    let diagram = DiagramGenerator::api_flow_diagram(&graph);
    assert!(diagram.starts_with("graph LR"));
}

#[test]
fn module_diagram_counts_files_per_directory() {
    let ir = make_ir();
    let graph = CodeGraph::build_from_ir(&ir);
    let diagram = DiagramGenerator::module_dependency_diagram(&graph);
    assert_eq!(diagram, "graph TD\n    src[\"src (2 files)\"]\n");
}

#[test]
fn module_diagram_sorts_modules() {
    let mut ir = RepoIR::new("/r".to_string());
    for p in ["zeta/a.rs", "alpha/b.rs", "top.rs", "alpha/c.rs"] {
        ir.files.push(FileIR {
            path: p.to_string(),
            language: Language::Rust,
            content_hash: String::new(),
            parse_status: ParseStatus::Success,
            byte_count: 0,
        });
    }
    let graph = CodeGraph::build_from_ir(&ir);
    let diagram = DiagramGenerator::module_dependency_diagram(&graph);
    assert_eq!(diagram, "graph TD\n    alpha[\"alpha (2 files)\"]\n    zeta[\"zeta (1 files)\"]\n");
}

#[test]
fn api_flow_lists_routes_and_handlers() {
    let mut ir = make_ir();
    let h = ir.symbols[2].id.clone();
    ir.endpoints.push(endpoint(HttpMethod::Get, "/api/test", Some(h)));
    let graph = CodeGraph::build_from_ir(&ir);
    let diagram = DiagramGenerator::api_flow_diagram(&graph);
    // `my_function` and `_private_fn` share a file, a span and a kind, so their
    // stable key is the same and the index holds the later one.
    assert_eq!(
        diagram,
        "graph LR\n    REQ[HTTP Request] --> ROUTER{Route Match}\n    ROUTER -->|\"GET /api/test\"| GET__api_test[\"GET /api/test\"]\n    GET__api_test --> private_fn[_private_fn]\n"
    );
    let eps = graph.endpoint_nodes();
    assert_eq!(graph.neighbors(eps[0].0, GraphDirection::Outgoing).len(), 1);
}

// ── Pages ────────────────────────────────────────────────────────

#[test]
fn test_page_builder_new() {
    let builder = PageBuilder::new();
    assert!(builder.is_ok());
}

#[test]
fn test_page_builder_build_all() {
    let ir = make_ir();
    let graph = CodeGraph::build_from_ir(&ir);
    let symbol_docs: Vec<(String, LlmDocResult)> = Vec::new();
    let overview = "# Test Overview";
    let commit = "abc123";
    let builder = PageBuilder::new().unwrap();
    let pages = builder.build_all(&ir, &graph, &symbol_docs, overview, commit).unwrap();
    assert!(!pages.is_empty());
    let page_paths: Vec<&str> = pages.iter().map(|p| p.path.as_str()).collect();
    assert!(page_paths.contains(&"index.md"));
    assert!(page_paths.contains(&"architecture.md"));
}

#[test]
fn test_page_builder_with_endpoints() {
    let mut ir = make_ir();
    ir.endpoints.push(endpoint(HttpMethod::Get, "/api/test", None));
    let graph = CodeGraph::build_from_ir(&ir);
    let symbol_docs: Vec<(String, LlmDocResult)> = Vec::new();
    let builder = PageBuilder::new().unwrap();
    let pages = builder.build_all(&ir, &graph, &symbol_docs, "Overview", "abc").unwrap();
    let page_paths: Vec<&str> = pages.iter().map(|p| p.path.as_str()).collect();
    assert!(page_paths.contains(&"api.md"));
}

#[test]
fn test_page_content_contains_expected_sections() {
    let ir = make_ir();
    let graph = CodeGraph::build_from_ir(&ir);
    let symbol_docs: Vec<(String, LlmDocResult)> = Vec::new();
    let builder = PageBuilder::new().unwrap();
    let pages = builder.build_all(&ir, &graph, &symbol_docs, "Overview text", "commit123").unwrap();
    let index = pages.iter().find(|p| p.path == "index.md").unwrap();
    assert!(index.content.contains("Project Wiki"));
    assert!(index.content.contains("Overview text"));
    assert!(index.content.contains("Rust"));
    let arch = pages.iter().find(|p| p.path == "architecture.md").unwrap();
    assert!(arch.content.contains("Architecture"));
    assert!(arch.content.contains("mermaid"));
}

#[test]
fn pages_come_in_order_with_one_page_per_module() {
    let mut ir = make_ir();
    ir.symbols.push(make_symbol("Other", SymbolKind::Struct, Visibility::Public, "lib/x y.rs"));
    let graph = CodeGraph::build_from_ir(&ir);
    let docs: Vec<(String, LlmDocResult)> = Vec::new();
    let builder = PageBuilder::new().unwrap();
    let pages = builder.build_all_at(&ir, &graph, &docs, "o", "c", "2024-01-01T00:00:00+00:00").unwrap();
    let paths: Vec<&str> = pages.iter().map(|p| p.path.as_str()).collect();
    assert_eq!(paths, vec!["index.md", "architecture.md", "modules/src.md", "modules/lib.md"]);
    assert_eq!(pages[2].symbols_referenced, vec!["MyStruct", "MyTrait", "my_function", "_private_fn"]);
    assert!(pages[0].content.contains("generated_at: \"2024-01-01T00:00:00+00:00\""));
    assert!(pages[0].content.contains("| Files | 2 |"));
    assert!(pages[2].content.contains("# Module: src"));
    assert!(pages[2].content.contains("**File**: `src/lib.rs:1`"));
}

#[test]
fn module_page_names_replace_unsafe_characters() {
    let mut ir = RepoIR::new("/r".to_string());
    ir.symbols.push(make_symbol("A", SymbolKind::Struct, Visibility::Public, "my dir.v2/a.rs"));
    let graph = CodeGraph::build_from_ir(&ir);
    let docs: Vec<(String, LlmDocResult)> = Vec::new();
    let pages = PageBuilder::new().unwrap().build_all_at(&ir, &graph, &docs, "", "", "t").unwrap();
    assert_eq!(pages[2].path, "modules/my_dir_v2.md");
}

#[test]
fn modules_and_languages_keep_first_appearance_order() {
    let ir = make_ir();
    let gs = collect_modules(&ir);
    assert_eq!(gs.len(), 1);
    assert_eq!(gs[0].0, "src");
    assert_eq!(gs[0].1, vec![0, 1, 2, 3]);
    let mut files = ir.files.clone();
    files.push(FileIR {
        path: "a.py".to_string(),
        language: Language::Python,
        content_hash: String::new(),
        parse_status: ParseStatus::Success,
        byte_count: 0,
    });
    let cs = count_languages(&files);
    assert_eq!(cs, vec![(Language::Rust, 2), (Language::Python, 1)]);
}

// ── Wiki index and export ────────────────────────────────────────

#[test]
fn test_wiki_index_build() {
    let pages = vec![
        GeneratedPage { path: "index.md".to_string(), content: "# Index content".to_string(), symbols_referenced: Vec::new() },
        GeneratedPage {
            path: "modules/foo.md".to_string(),
            content: "# Foo module".to_string(),
            symbols_referenced: vec!["foo::bar".to_string()],
        },
    ];
    let index = WikiIndex::build(&pages, "abc123");
    assert_eq!(index.pages.len(), 2);
    assert_eq!(index.source_commit, "abc123");
}

#[test]
fn wiki_index_hashes_each_page() {
    let pages = vec![GeneratedPage { path: "p.md".to_string(), content: "abc".to_string(), symbols_referenced: vec!["x".to_string()] }];
    let index = WikiIndex::build_at(&pages, "c", "when".to_string());
    assert_eq!(index.version, 1);
    assert_eq!(index.generated_at, "when");
    assert_eq!(index.pages[0].path, "p.md");
    assert_eq!(index.pages[0].content_hash, "ba7816bf8f01cfea414140de5dae2223b00361a396177a9cb410ff61f20015ad");
    assert_eq!(index.pages[0].symbols_referenced, vec!["x"]);
    assert!(index.pages[0].evidence.is_empty());
}

#[test]
fn export_skips_only_unchanged_pages() {
    let page = GeneratedPage { path: "a/b.md".to_string(), content: "same".to_string(), symbols_referenced: Vec::new() };
    assert!(ExportOrchestrator::should_skip_page(&page, Some("same")));
    assert!(!ExportOrchestrator::should_skip_page(&page, Some("other")));
    assert!(!ExportOrchestrator::should_skip_page(&page, None));
    assert_eq!(ExportOrchestrator::page_path(&page, "out"), "out/a/b.md");
    assert_eq!(ExportOrchestrator::page_path(&page, "out/"), "out/a/b.md");
}

// ── Documentation generation ─────────────────────────────────────

#[test]
fn test_llm_gen_fallback_mode() {
    let gen = LlmDocGenerator::new(LlmConfig::default());
    let ir = make_ir();
    let graph = CodeGraph::build_from_ir(&ir);
    let file_contents: Vec<(String, String)> = Vec::new();
    let mut cache = CacheStore::new();
    let results = gen.generate_all(&ir, &graph, &file_contents, &mut cache);
    assert!(!results.is_empty());
}

#[test]
fn test_llm_gen_overview() {
    let gen = LlmDocGenerator::new(LlmConfig::default());
    let ir = make_ir();
    let symbol_docs: Vec<(String, LlmDocResult)> = Vec::new();
    let overview = gen.generate_overview(&ir, &symbol_docs);
    assert!(overview.contains("Project Overview"));
    assert!(overview.contains("Rust"));
}

#[test]
fn overview_exact_text() {
    let gen = LlmDocGenerator::new(LlmConfig::default());
    let ir = make_ir();
    let docs = vec![(
        ir.symbols[1].id.stable_key(),
        LlmDocResult { summary: "A trait.".to_string(), detailed: String::new(), usage_example: None, sources: Vec::new() },
    )];
    let overview = gen.generate_overview(&ir, &docs);
    assert_eq!(
        overview,
        "# Project Overview\n\n**Repository**: `/test/repo`\n\n- **Files**: 2\n- **Symbols**: 4\n- **Endpoints**: 0\n\n## Languages\n\n- **Rust**: 2 files\n\n## Key Symbols\n\n- **`MyStruct`** (struct): No description\n- **`MyTrait`** (trait): A trait.\n"
    );
}

#[test]
fn generate_all_documents_public_symbols_and_reuses_the_cache() {
    let gen = LlmDocGenerator::new(LlmConfig::default());
    let ir = make_ir();
    let graph = CodeGraph::build_from_ir(&ir);
    let files = vec![("src/lib.rs".to_string(), "use std::fmt;\npub struct MyStruct;\n".to_string())];
    let mut cache = CacheStore::new();
    let first = gen.generate_all_at(&ir, &graph, &files, &mut cache, "t1");
    assert_eq!(first.len(), 3);
    assert_eq!(first[0].0, ir.symbols[0].id.stable_key());
    assert_eq!(first[0].1.summary, "Summary of MyStruct");
    assert_eq!(first[0].1.detailed, "Documentation for MyStruct");
    assert_eq!(cache.entries.len(), 3);
    assert!(cache.entries.iter().all(|(_, e)| e.generated_at == "t1"));
    let second = gen.generate_all_at(&ir, &graph, &files, &mut cache, "t2");
    assert_eq!(second.len(), 3);
    assert!(cache.entries.iter().all(|(_, e)| e.generated_at == "t1"));
    for (a, b) in first.iter().zip(second.iter()) {
        assert_eq!(a.0, b.0);
        assert_eq!(a.1.summary, b.1.summary);
    }
}

#[test]
fn fallback_uses_signature_or_name_without_docs() {
    let gen = LlmDocGenerator::new(LlmConfig::default());
    let mut s = make_symbol("f", SymbolKind::Function, Visibility::Public, "a.rs");
    s.doc = None;
    let r = gen.generate_fallback(&s);
    assert_eq!(r.summary, "function `f`");
    assert_eq!(r.detailed, "A function defined as:\n\n```\nfunction f\n```");
    assert!(r.usage_example.is_none());
    assert_eq!(r.sources.len(), 1);
    assert_eq!(r.sources[0].file, "a.rs");
    s.signature = None;
    let r = gen.generate_fallback(&s);
    assert_eq!(r.detailed, "A function named `f`.");
}

#[test]
fn imports_are_the_first_thirty_import_lines() {
    let src = "use a;\nfn x() {}\n  import b\nfrom c import d\nrequire(\"e\")\nlet use_it = 1;\n";
    assert_eq!(extract_imports(src), "use a;\n  import b\nfrom c import d\nrequire(\"e\")");
    let many: String = (0..40).map(|i| format!("use m{};\n", i)).collect();
    assert_eq!(extract_imports(&many).lines().count(), 30);
    assert_eq!(extract_imports(""), "");
}

#[test]
fn replies_are_read_as_json_or_as_text() {
    let gen = LlmDocGenerator::new(LlmConfig::default());
    let s = make_symbol("MyStruct", SymbolKind::Struct, Visibility::Public, "src/lib.rs");
    let reply = "Here: {\"summary\": \"S\", \"detailed\": \"D\", \"usage_example\": null} done";
    assert_eq!(reply_json_part(reply), "{\"summary\": \"S\", \"detailed\": \"D\", \"usage_example\": null}");
    let obj = JsonValue::Object(vec![
        ("detailed".to_string(), JsonValue::Str("D".to_string())),
        ("summary".to_string(), JsonValue::Str("S".to_string())),
        ("usage_example".to_string(), JsonValue::Null),
    ]);
    let r = gen.parse_llm_response(reply, Some(&obj), &s);
    assert_eq!(r.summary, "S");
    assert_eq!(r.detailed, "D");
    assert!(r.usage_example.is_none());
    let partial = JsonValue::Object(vec![("usage_example".to_string(), JsonValue::Str("x()".to_string()))]);
    let r = gen.parse_llm_response("{}", Some(&partial), &s);
    assert_eq!(r.summary, "struct `MyStruct`");
    assert_eq!(r.detailed, "{}");
    assert_eq!(r.usage_example.as_deref(), Some("x()"));
    let arr = JsonValue::Array(vec![JsonValue::Str("a".to_string()), JsonValue::Null, JsonValue::Null]);
    let r = gen.parse_llm_response("[..]", Some(&arr), &s);
    assert_eq!(r.summary, "a");
    let bad = JsonValue::Object(vec![("summary".to_string(), JsonValue::Number("3".to_string()))]);
    let r = gen.parse_llm_response("first line\nsecond", Some(&bad), &s);
    assert_eq!(r.summary, "first line");
    assert_eq!(r.detailed, "first line\nsecond");
    let long = "x".repeat(250);
    let r = gen.parse_llm_response(&long, None, &s);
    assert_eq!(r.summary.len(), 200);
}

// ── Storage ──────────────────────────────────────────────────────

#[test]
fn path_prefixes_go_by_components() {
    assert!(path_starts_with_exec("/a/b/c", "/a/b"));
    assert!(path_starts_with_exec("/a//b/./c/", "/a/b"));
    assert!(!path_starts_with_exec("/a/bc", "/a/b"));
    assert!(!path_starts_with_exec("a/b", "/a"));
    assert!(path_starts_with_exec("./a", "."));
    assert!(path_starts_with_exec("/x", "/"));
}

#[test]
fn local_connector_refuses_traversal() {
    let c = LocalConnector::new("/root/repo".to_string());
    assert_eq!(c.root(), "/root/repo");
    assert_eq!(c.validate_path("/root/repo/src/a.rs".to_string(), "/root/repo").unwrap(), "/root/repo/src/a.rs");
    let err = c.validate_path("/root/other".to_string(), "/root/repo").unwrap_err();
    assert_eq!(err.to_string(), "Storage error: Path traversal denied: path escapes root directory");
    assert!(c.check_exists_request("src/a.rs").is_ok());
    assert!(c.check_exists_request("../etc").is_err());
    assert_eq!(c.name(), "local");
}

#[test]
fn mounted_shares_name_what_to_mount() {
    let n = NfsConnector::new("srv".to_string(), "/export".to_string(), "/mnt/nfs".to_string());
    assert!(n.connect_checked(true).is_ok());
    assert_eq!(
        n.connect_checked(false).unwrap_err().to_string(),
        "Storage error: NFS mount path does not exist: /mnt/nfs. Mount srv:/export first."
    );
    assert_eq!(n.inner().root(), "/mnt/nfs");
    let s = SmbConnector::new("srv".to_string(), "share".to_string(), "/mnt/smb".to_string());
    assert_eq!(
        s.connect_checked(false).unwrap_err().to_string(),
        "Storage error: SMB mount path does not exist: /mnt/smb. Mount //srv/share first."
    );
    assert_eq!(s.name(), "smb");
}

#[test]
fn git_connector_builders() {
    let g = GitConnector::new("https://example.com/r.git".to_string());
    assert_eq!(g.branch, "main");
    assert!(matches!(g.auth, GitAuth::Anonymous));
    assert!(g.checkout().is_err());
    let g = g.with_branch("dev".to_string()).with_token("tok".to_string());
    assert_eq!(g.branch, "dev");
    assert!(matches!(&g.auth, GitAuth::Token(t) if t == "tok"));
    let g = g.with_ssh_key("/k".to_string(), None);
    assert!(matches!(&g.auth, GitAuth::SshKey { private_key, passphrase: None } if private_key == "/k"));
    assert_eq!(g.url, "https://example.com/r.git");
}

// ── Discovery ────────────────────────────────────────────────────

#[test]
fn exclusion_patterns_match_their_core() {
    let pats = vec!["**/target/**".to_string(), "**/node_modules/*".to_string()];
    assert!(is_extra_excluded("crate/target/debug/x.rs", &pats));
    assert!(is_extra_excluded("web/node_modules/a.js", &pats));
    assert!(!is_extra_excluded("src/main.rs", &pats));
}

#[test]
fn discovery_considers_size_exclusions_and_type() {
    let d = FileDiscovery::new(WikiGenConfig::default());
    let f = d.consider("/r/src/main.rs".to_string(), "src/main.rs", Some(10)).unwrap();
    assert_eq!(f.relative_path, "src/main.rs");
    assert_eq!(f.absolute_path, "/r/src/main.rs");
    assert!(matches!(f.file_type, FileType::Source(Language::Rust)));
    assert!(d.consider("/r/a/target/x.rs".to_string(), "a/target/x.rs", Some(10)).is_none());
    assert!(d.consider("/r/big.rs".to_string(), "big.rs", Some(512 * 1024 + 1)).is_none());
    assert!(d.consider("/r/ok.rs".to_string(), "ok.rs", Some(512 * 1024)).is_some());
    assert!(d.consider("/r/readme.txt".to_string(), "readme.txt", None).is_none());
}

// ── The generation steps ─────────────────────────────────────────

#[test]
fn generation_steps_fill_the_model() {
    let _g = WikiGenerator::new(WikiGenConfig::default());
    let mut ir = RepoIR::new("/r".to_string());
    let out = WikiGenerator::parse_file(Language::Python, b"def hello():\n    pass\n", "app.py").unwrap().unwrap();
    WikiGenerator::add_parsed(&mut ir, out);
    assert_eq!(ir.files.len(), 1);
    assert_eq!(ir.symbols.len(), 1);
    WikiGenerator::add_manifest(&mut ir, Ok(ManifestInfo { ecosystem: Ecosystem::Pip, source_file: "requirements.txt".to_string(), dependencies: Vec::new() }));
    assert_eq!(ir.manifests.len(), 1);
    let spec = ApiSpec { kind: SpecKind::OpenApi, file: "api.json".to_string(), endpoints: vec![endpoint(HttpMethod::Get, "/x", None)] };
    WikiGenerator::add_spec(&mut ir, Ok(spec));
    assert_eq!(ir.specs.len(), 1);
    assert_eq!(ir.endpoints.len(), 1);
    let src = b"from fastapi import FastAPI\napp = FastAPI()\n\n@app.get(\"/items\")\ndef hello():\n    pass\n";
    assert!(WikiGenerator::endpoints_scannable_exec(src, "app.py"));
    WikiGenerator::add_framework_endpoints(&mut ir, src, "app.py");
    assert_eq!(ir.endpoints.len(), 2);
    assert_eq!(ir.endpoints[1].path, "/items");
    WikiGenerator::add_framework_endpoints(&mut ir, b"plain", "notes.md");
    assert_eq!(ir.endpoints.len(), 2);
}
