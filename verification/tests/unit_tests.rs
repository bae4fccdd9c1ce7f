use memoryos_wiki_gen::cache::{compute_hash, CacheStore};
use memoryos_wiki_gen::config::WikiGenConfig;
use memoryos_wiki_gen::diagram::DiagramGenerator;
use memoryos_wiki_gen::evidence::{EvidenceRef, LlmDocResult};
use memoryos_wiki_gen::ir::{
    Dependency, DependencyScope, Doc, DocFormat, Ecosystem, FileIR, HttpMethod, Language,
    ManifestInfo, ParseStatus, Reference, ReferenceKind, ReferenceTarget, RepoIR, Span, Symbol,
    SymbolId, SymbolKind, Visibility,
};

fn make_symbol(name: &str, kind: SymbolKind, vis: Visibility, file: &str) -> Symbol {
    Symbol {
        id: SymbolId::new(file.to_string(), 0, 100, kind, name.to_string()),
        kind,
        qualified_name: name.to_string(),
        visibility: vis,
        file: file.to_string(),
        span: Span::new(0, 100, 1, 10),
        signature: Some(format!("{} {}", kind.to_string(), name)),
        doc: Some(Doc {
            raw: format!("Documentation for {}", name),
            format: DocFormat::RustDoc,
            summary: Some(format!("Summary of {}", name)),
        }),
        parent: None,
        children: Vec::new(),
        annotations: Vec::new(),
        type_params: Vec::new(),
    }
}

fn make_ir() -> RepoIR {
    let mut ir = RepoIR::new("/test/repo".to_string());

    ir.files.push(FileIR {
        path: "src/lib.rs".to_string(),
        language: Language::Rust,
        content_hash: "abc123".to_string(),
        parse_status: ParseStatus::Success,
        byte_count: 1000,
    });
    ir.files.push(FileIR {
        path: "src/main.rs".to_string(),
        language: Language::Rust,
        content_hash: "def456".to_string(),
        parse_status: ParseStatus::Success,
        byte_count: 500,
    });

    ir.symbols.push(make_symbol("MyStruct", SymbolKind::Struct, Visibility::Public, "src/lib.rs"));
    ir.symbols.push(make_symbol("MyTrait", SymbolKind::Trait, Visibility::Public, "src/lib.rs"));
    ir.symbols.push(make_symbol("my_function", SymbolKind::Function, Visibility::Public, "src/main.rs"));
    ir.symbols.push(make_symbol("_private_fn", SymbolKind::Function, Visibility::Private, "src/main.rs"));

    ir.references.push(Reference {
        source: ir.symbols[2].id.clone(),
        target: ReferenceTarget::Unresolved("MyStruct".to_string()),
        kind: ReferenceKind::UsesType,
        span: Span::new(10, 20, 2, 2),
    });

    ir
}

// ── IR Tests ─────────────────────────────────────────────────────

#[test]
fn test_repo_ir_new() {
    let ir = RepoIR::new("/test".to_string());
    assert!(ir.files.is_empty());
    assert!(ir.symbols.is_empty());
    assert!(ir.references.is_empty());
    assert!(ir.endpoints.is_empty());
    assert!(ir.diagnostics.is_empty());
}

#[test]
fn test_repo_ir_public_symbols() {
    let ir = make_ir();
    let public = ir.public_symbols();
    assert_eq!(public.len(), 3);
    assert!(public.iter().all(|s| matches!(s.visibility, Visibility::Public)));
}

#[test]
fn test_repo_ir_symbols_in_file() {
    let ir = make_ir();
    let lib_symbols = ir.symbols_in_file("src/lib.rs");
    assert_eq!(lib_symbols.len(), 2);
    let main_symbols = ir.symbols_in_file("src/main.rs");
    assert_eq!(main_symbols.len(), 2);
}

#[test]
fn test_symbol_id_stable_key() {
    let id = SymbolId::new("src/lib.rs".to_string(), 0, 100, SymbolKind::Struct, "MyStruct".to_string());
    let key = id.stable_key();
    assert!(key.contains("src/lib.rs"));
    assert!(key.contains("0"));
    assert!(key.contains("100"));
    assert!(key.contains("Struct"));
}

#[test]
fn test_symbol_id_qualified_name() {
    let id = SymbolId::new("f.rs".to_string(), 0, 10, SymbolKind::Function, "foo::bar".to_string());
    assert_eq!(id.qualified_name(), "foo::bar");
}

#[test]
fn test_span_new_and_offset() {
    let span = Span::new(10, 50, 2, 5);
    assert_eq!(span.start_byte, 10);
    assert_eq!(span.end_byte, 50);
    assert_eq!(span.start_line, 2);
    assert_eq!(span.end_line, 5);

    let offset = span.offset(100, 10);
    assert_eq!(offset.start_byte, 110);
    assert_eq!(offset.end_byte, 150);
    assert_eq!(offset.start_line, 12);
    assert_eq!(offset.end_line, 15);
}

#[test]
fn test_http_method_display() {
    assert_eq!(HttpMethod::Get.to_string(), "GET");
    assert_eq!(HttpMethod::Post.to_string(), "POST");
    assert_eq!(HttpMethod::Put.to_string(), "PUT");
    assert_eq!(HttpMethod::Delete.to_string(), "DELETE");
    assert_eq!(HttpMethod::Patch.to_string(), "PATCH");
    assert_eq!(HttpMethod::All.to_string(), "ALL");
}

#[test]
fn test_symbol_kind_display() {
    assert_eq!(SymbolKind::Function.to_string(), "function");
    assert_eq!(SymbolKind::Struct.to_string(), "struct");
    assert_eq!(SymbolKind::Trait.to_string(), "trait");
    assert_eq!(SymbolKind::Class.to_string(), "class");
    assert_eq!(SymbolKind::Enum.to_string(), "enum");
    assert_eq!(SymbolKind::Module.to_string(), "module");
    assert_eq!(SymbolKind::Component.to_string(), "component");
}

// ── Cache Tests ──────────────────────────────────────────────────

#[test]
fn test_cache_store_new() {
    let cache = CacheStore::new();
    assert_eq!(cache.version, 1);
    assert!(cache.entries.is_empty());
}

#[test]
fn test_cache_store_insert_and_lookup() {
    let mut cache = CacheStore::new();
    let result = LlmDocResult {
        summary: "Test summary".to_string(),
        detailed: "Test detailed".to_string(),
        usage_example: None,
        sources: vec![EvidenceRef { file: "test.rs".to_string(), start_line: 1, end_line: 10 }],
    };
    cache.insert("sym1".to_string(), "prompt1".to_string(), "content1".to_string(), result);
    assert!(cache.lookup("sym1", "prompt1").is_some());
    assert!(cache.lookup("sym1", "wrong_prompt").is_none());
    assert!(cache.lookup("wrong_sym", "prompt1").is_none());
}

#[test]
fn test_compute_hash_deterministic() {
    let h1 = compute_hash("hello world");
    let h2 = compute_hash("hello world");
    let h3 = compute_hash("different");
    assert_eq!(h1, h2);
    assert_ne!(h1, h3);
}

// ── Diagram Tests ────────────────────────────────────────────────

#[test]
fn test_class_diagram() {
    let ir = make_ir();
    let diagram = DiagramGenerator::class_diagram(&ir.symbols, &ir.references);
    assert!(diagram.starts_with("classDiagram"));
    assert!(diagram.contains("MyStruct"));
}

#[test]
fn test_crate_dependency_diagram() {
    let manifests = vec![ManifestInfo {
        ecosystem: Ecosystem::Cargo,
        source_file: "crates/foo/Cargo.toml".to_string(),
        dependencies: vec![
            Dependency {
                name: "serde".to_string(),
                version_req: Some("1.0".to_string()),
                scope: DependencyScope::Runtime,
                source_file: "crates/foo/Cargo.toml".to_string(),
                ecosystem: Ecosystem::Cargo,
            },
            Dependency {
                name: "tokio".to_string(),
                version_req: Some("1.0".to_string()),
                scope: DependencyScope::Runtime,
                source_file: "crates/foo/Cargo.toml".to_string(),
                ecosystem: Ecosystem::Cargo,
            },
        ],
    }];
    let diagram = DiagramGenerator::crate_dependency_diagram(&manifests);
    assert!(diagram.contains("serde"));
    assert!(diagram.contains("tokio"));
}

// ── Config Tests ─────────────────────────────────────────────────

#[test]
fn test_config_defaults() {
    let config = WikiGenConfig::default();
    assert_eq!(config.llm.model, "gpt-4o");
    assert_eq!(config.llm.max_concurrent, 5);
    assert_eq!(config.llm.retry_max, 3);
    assert!(config.cache.enabled);
    assert_eq!(config.output.format, "markdown");
    assert_eq!(config.export.target, "local");
}

#[test]
fn test_config_language_enabled() {
    let config = WikiGenConfig::default();
    assert!(config.parse.language_enabled(Language::Rust));
    assert!(config.parse.language_enabled(Language::Python));
    assert!(config.parse.language_enabled(Language::Java));
    assert!(config.parse.language_enabled(Language::Vue));
}

#[test]
fn test_config_resolved_paths() {
    let config = WikiGenConfig::default();
    let repo = "/my/repo";
    let output = config.resolved_output_dir(repo);
    assert_eq!(output, "/my/repo/wiki-output");
    let cache = config.resolved_cache_dir(repo);
    assert_eq!(cache, "/my/repo/.wiki-cache");
}

// ── Diagrams, exact ──────────────────────────────────────────────

#[test]
fn class_diagram_exact_text() {
    let mut owner = make_symbol("a::Shape", SymbolKind::Trait, Visibility::Public, "s.rs");
    owner.id = SymbolId::new("s.rs".to_string(), 5, 9, SymbolKind::Trait, "a::Shape".to_string());
    let mut method = make_symbol("a::Shape::area", SymbolKind::Method, Visibility::Private, "s.rs");
    method.parent = Some(owner.id.clone());
    let r = Reference {
        source: SymbolId::new("s.rs".to_string(), 0, 1, SymbolKind::Struct, "a::Circle".to_string()),
        target: ReferenceTarget::Unresolved("a::Shape".to_string()),
        kind: ReferenceKind::Implements,
        span: Span::new(0, 1, 1, 1),
    };
    let d = DiagramGenerator::class_diagram(&[owner, method], &[r]);
    assert_eq!(
        d,
        "classDiagram\n    class Shape {\n        <<interface>>\n    }\n    class Shape {\n        -area\n    }\n    Circle ..|> Shape\n"
    );
}

#[test]
fn crate_diagram_sanitizes_ids_and_skips_dev_deps() {
    let dep = |name: &str, scope| Dependency {
        name: name.to_string(),
        version_req: None,
        scope,
        source_file: "my-crate/Cargo.toml".to_string(),
        ecosystem: Ecosystem::Cargo,
    };
    let manifests = vec![ManifestInfo {
        ecosystem: Ecosystem::Cargo,
        source_file: "my-crate/Cargo.toml".to_string(),
        dependencies: vec![dep("serde-json", DependencyScope::Runtime), dep("tempfile", DependencyScope::Dev)],
    }];
    let d = DiagramGenerator::crate_dependency_diagram(&manifests);
    assert_eq!(d, "graph TD\n    my_crate --> serde_json[serde-json]\n");
}
