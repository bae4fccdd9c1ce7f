use memoryos_wiki_gen::endpoint::spec_discovery::discover_api_spec;
use memoryos_wiki_gen::error::WikiGenError;
use memoryos_wiki_gen::graph::graph_fits_exec;
use memoryos_wiki_gen::ir::{DependencyScope, Ecosystem, HttpMethod, ManifestInfo, RepoIR, SymbolId, SymbolKind};
use memoryos_wiki_gen::json::{parse_json, parse_toml, JsonValue};
use memoryos_wiki_gen::lang::{ApiSpecType, ManifestType};
use memoryos_wiki_gen::manifest::create_extractor;

fn deps(m: &ManifestInfo) -> Vec<(String, Option<String>, DependencyScope)> {
    m.dependencies.iter().map(|d| (d.name.clone(), d.version_req.clone(), d.scope)).collect()
}

#[test]
fn test_parse_json_and_toml_documents() {
    match parse_json("{\"a\": [1, \"x\", null]}").unwrap() {
        JsonValue::Object(m) => {
            assert_eq!(m.len(), 1);
            assert_eq!(m[0].0, "a");
            match &m[0].1 {
                JsonValue::Array(items) => {
                    assert!(matches!(&items[0], JsonValue::Number(n) if n == "1"));
                    assert!(matches!(&items[1], JsonValue::Str(s) if s == "x"));
                    assert!(matches!(&items[2], JsonValue::Null));
                }
                other => panic!("unexpected {:?}", other),
            }
        }
        other => panic!("unexpected {:?}", other),
    }
    assert!(parse_json("{").is_err());
    match parse_toml("[t]\nk = 3\nb = true\n").unwrap() {
        JsonValue::Object(m) => match &m[0].1 {
            JsonValue::Object(t) => {
                assert_eq!(t[0].0, "b");
                assert!(matches!(&t[0].1, JsonValue::Bool(true)));
                assert!(matches!(&t[1].1, JsonValue::Number(n) if n == "3"));
            }
            other => panic!("unexpected {:?}", other),
        },
        other => panic!("unexpected {:?}", other),
    }
    assert!(parse_toml("k = ").is_err());
}

#[test]
fn test_cargo_manifest_from_text() {
    let text = b"[package]\nname = \"x\"\n\n[dependencies]\nserde = \"1.0\"\ntokio = { version = \"1\", features = [\"full\"] }\n\n[dev-dependencies]\ntempfile = \"3\"\n";
    let m = create_extractor(ManifestType::CargoToml).extract(text, "Cargo.toml").unwrap();
    assert_eq!(m.ecosystem, Ecosystem::Cargo);
    assert_eq!(
        deps(&m),
        vec![
            ("serde".to_string(), Some("1.0".to_string()), DependencyScope::Runtime),
            ("tokio".to_string(), Some("1".to_string()), DependencyScope::Runtime),
            ("tempfile".to_string(), Some("3".to_string()), DependencyScope::Dev),
        ]
    );
    match create_extractor(ManifestType::CargoToml).extract(b"[dependencies\n", "Cargo.toml") {
        Err(WikiGenError::Parse { file, message }) => {
            assert_eq!(file, "Cargo.toml");
            assert!(message.starts_with("Failed to parse Cargo.toml: "));
        }
        _ => panic!("expected a parse error"),
    }
    assert!(create_extractor(ManifestType::CargoToml).extract(&[0xff, 0xfe], "Cargo.toml").is_err());
}

#[test]
fn test_package_json_from_text() {
    let text = br#"{"name":"w","dependencies":{"react":"^18.0.0"},"devDependencies":{"vite":"5"}}"#;
    let m = create_extractor(ManifestType::PackageJson).extract(text, "package.json").unwrap();
    assert_eq!(m.ecosystem, Ecosystem::Npm);
    assert_eq!(
        deps(&m),
        vec![
            ("react".to_string(), Some("^18.0.0".to_string()), DependencyScope::Runtime),
            ("vite".to_string(), Some("5".to_string()), DependencyScope::Dev),
        ]
    );
    match create_extractor(ManifestType::PackageJson).extract(b"{", "package.json") {
        Err(WikiGenError::Parse { message, .. }) => assert!(message.starts_with("Failed to parse package.json: ")),
        _ => panic!("expected a parse error"),
    }
}

#[test]
fn test_pyproject_from_text() {
    let text = b"[project]\ndependencies = [\"requests>=2.0\", \"click\"]\n";
    let m = create_extractor(ManifestType::PyprojectToml).extract(text, "pyproject.toml").unwrap();
    assert_eq!(
        deps(&m),
        vec![
            ("requests".to_string(), Some(">=2.0".to_string()), DependencyScope::Runtime),
            ("click".to_string(), None, DependencyScope::Runtime),
        ]
    );
    let broken = create_extractor(ManifestType::PyprojectToml).extract(b"[project\n", "pyproject.toml").unwrap();
    assert!(broken.dependencies.is_empty());
}

#[test]
fn test_openapi_json_spec_from_text() {
    let text = br#"{"openapi":"3.0.0","paths":{"/users":{"get":{"tags":["users"]}}}}"#;
    let spec = discover_api_spec(text, "api/openapi.json", ApiSpecType::OpenApi).unwrap();
    assert_eq!(spec.endpoints.len(), 1);
    assert_eq!(spec.endpoints[0].method, HttpMethod::Get);
    assert_eq!(spec.endpoints[0].path, "/users");
    assert_eq!(spec.endpoints[0].tags, vec!["users".to_string()]);
    let yaml = discover_api_spec(b"openapi: 3.0.0\n", "api/openapi.yaml", ApiSpecType::OpenApi).unwrap();
    assert!(yaml.endpoints.is_empty());
    match discover_api_spec(b"{", "api/openapi.json", ApiSpecType::OpenApi) {
        Err(WikiGenError::Parse { message, .. }) => assert!(message.starts_with("Failed to parse OpenAPI JSON: ")),
        _ => panic!("expected a parse error"),
    }
}

#[test]
fn test_graph_fits_small_model() {
    let ir = RepoIR::new(".".to_string());
    assert!(graph_fits_exec(&ir));
    let mut with_manifest = RepoIR::new(".".to_string());
    let m = create_extractor(ManifestType::PackageJson)
        .extract(br#"{"dependencies":{"a":"1"}}"#, "package.json")
        .unwrap();
    with_manifest.manifests.push(m);
    assert!(graph_fits_exec(&with_manifest));
}

#[test]
fn test_stable_key_tells_symbols_apart() {
    let a = SymbolId::new("a:1".to_string(), 2, 3, SymbolKind::Function, "x".to_string());
    let b = SymbolId::new("a".to_string(), 1, 2, SymbolKind::Function, "x".to_string());
    assert_eq!(a.stable_key(), "a:1:2:3:Function");
    assert_ne!(a.stable_key(), b.stable_key());
    let renamed = SymbolId::new("a:1".to_string(), 2, 3, SymbolKind::Function, "other".to_string());
    assert_eq!(a.stable_key(), renamed.stable_key());
    let other_kind = SymbolId::new("a:1".to_string(), 2, 3, SymbolKind::Field, "x".to_string());
    assert_ne!(a.stable_key(), other_kind.stable_key());
}
