use memoryos_wiki_gen::ir::{Language, ParseStatus, ReferenceKind, ReferenceTarget, SymbolKind, Visibility};
use memoryos_wiki_gen::parser::create_parser;

#[test]
fn test_rust_parser_basic() {
    let parser = create_parser(Language::Rust);
    assert_eq!(parser.language(), Language::Rust);

    let source = br#"
/// A test struct
pub struct TestStruct {
    pub field: String,
}

/// A test function
pub fn test_function(x: i32) -> i32 {
    x + 1
}

fn private_function() {}

pub enum MyEnum {
    VariantA,
    VariantB,
}

pub trait MyTrait {
    fn do_something(&self);
}
"#;

    let output = parser.parse(source, "src/test.rs").unwrap();
    assert_eq!(output.file.language, Language::Rust);
    assert_eq!(output.file.parse_status, ParseStatus::Success);
    assert!(!output.symbols.is_empty());

    let names: Vec<&str> = output.symbols.iter().map(|s| s.qualified_name.as_str()).collect();
    assert!(names.iter().any(|n| n.contains("TestStruct")));
    assert!(names.iter().any(|n| n.contains("test_function")));
    assert!(names.iter().any(|n| n.contains("MyEnum")));
    assert!(names.iter().any(|n| n.contains("MyTrait")));

    let pub_symbols: Vec<_> = output
        .symbols
        .iter()
        .filter(|s| matches!(s.visibility, Visibility::Public))
        .collect();
    assert!(pub_symbols.len() >= 4);
}

#[test]
fn test_rust_parser_doc_comments() {
    let parser = create_parser(Language::Rust);
    let source = br#"
/// This is a doc comment
/// with multiple lines
pub fn documented_fn() {}
"#;
    let output = parser.parse(source, "src/test.rs").unwrap();
    let func = output
        .symbols
        .iter()
        .find(|s| s.qualified_name.contains("documented_fn"))
        .unwrap();
    assert!(func.doc.is_some());
    let doc = func.doc.as_ref().unwrap();
    assert!(doc.raw.contains("doc comment"));
}

#[test]
fn test_rust_parser_impl_methods() {
    let parser = create_parser(Language::Rust);
    let source = br#"
pub struct Foo {}

impl Foo {
    pub fn bar(&self) -> i32 {
        42
    }
    fn private_method(&self) {}
}
"#;
    let output = parser.parse(source, "src/test.rs").unwrap();
    let methods: Vec<_> = output
        .symbols
        .iter()
        .filter(|s| matches!(s.kind, SymbolKind::Method))
        .collect();
    assert!(!methods.is_empty());
}

#[test]
fn test_python_parser_basic() {
    let parser = create_parser(Language::Python);
    assert_eq!(parser.language(), Language::Python);

    let source = br#"
class MyClass:
    """A test class."""

    def method(self):
        """A method."""
        pass

def standalone_function(x: int) -> int:
    """Return x + 1."""
    return x + 1

def _private_function():
    pass
"#;

    let output = parser.parse(source, "src/test.py").unwrap();
    assert_eq!(output.file.language, Language::Python);
    assert!(!output.symbols.is_empty());

    let names: Vec<&str> = output.symbols.iter().map(|s| s.qualified_name.as_str()).collect();
    assert!(names.iter().any(|n| n.contains("MyClass")));
    assert!(names.iter().any(|n| n.contains("standalone_function")));

    let private: Vec<_> = output
        .symbols
        .iter()
        .filter(|s| s.qualified_name.contains("_private_function"))
        .collect();
    assert!(!private.is_empty());
    assert!(matches!(private[0].visibility, Visibility::Private));
}

#[test]
fn test_python_parser_docstrings() {
    let parser = create_parser(Language::Python);
    let source = br#"
def documented(x):
    """This function does something."""
    return x
"#;
    let output = parser.parse(source, "test.py").unwrap();
    let func = output
        .symbols
        .iter()
        .find(|s| s.qualified_name.contains("documented"))
        .unwrap();
    assert!(func.doc.is_some());
    assert!(func.doc.as_ref().unwrap().raw.contains("does something"));
}

#[test]
fn test_java_parser_basic() {
    let parser = create_parser(Language::Java);
    assert_eq!(parser.language(), Language::Java);

    let source = br#"
package com.example;

public class MyService {
    public void doSomething() {
    }

    private int helper() {
        return 42;
    }
}
"#;
    let output = parser.parse(source, "src/MyService.java").unwrap();
    assert_eq!(output.file.language, Language::Java);
    assert!(!output.symbols.is_empty());
    let names: Vec<&str> = output.symbols.iter().map(|s| s.qualified_name.as_str()).collect();
    assert!(names.iter().any(|n| n.contains("MyService")));
}

#[test]
fn test_typescript_parser_basic() {
    let parser = create_parser(Language::TypeScript);
    assert_eq!(parser.language(), Language::TypeScript);

    let source = br#"
export interface UserService {
    getUser(id: string): Promise<User>;
}

export class UserServiceImpl implements UserService {
    async getUser(id: string): Promise<User> {
        return {} as User;
    }
}

export function createUser(name: string): User {
    return { name };
}
"#;
    let output = parser.parse(source, "src/service.ts").unwrap();
    assert!(!output.symbols.is_empty());
}

#[test]
fn test_create_parser_for_all_languages() {
    let _rust = create_parser(Language::Rust);
    let _python = create_parser(Language::Python);
    let _java = create_parser(Language::Java);
    let _ts = create_parser(Language::TypeScript);
    let _js = create_parser(Language::JavaScript);
    let _vue = create_parser(Language::Vue);
}

#[test]
fn rust_symbols_have_exact_names_and_signatures() {
    let parser = create_parser(Language::Rust);
    let source = b"\n/// Adds one.\npub fn add_one<T>(x: i32) -> i32 {\n    x + 1\n}\n";
    let output = parser.parse(source, "src/math/ops.rs").unwrap();
    assert_eq!(output.symbols.len(), 1);
    let f = &output.symbols[0];
    assert_eq!(f.qualified_name, "src::math::ops::add_one");
    assert_eq!(f.kind, SymbolKind::Function);
    assert_eq!(f.visibility, Visibility::Public);
    assert_eq!(f.signature.as_deref(), Some("pub fn add_one<T>(x: i32) -> i32"));
    assert_eq!(f.doc.as_ref().unwrap().raw, "Adds one.");
    assert_eq!(f.doc.as_ref().unwrap().summary.as_deref(), Some("Adds one."));
    assert!(f.annotations.is_empty());
    // The grammar wraps `T` in a `type_parameter` node, which is not collected.
    assert!(f.type_params.is_empty());
    assert_eq!(f.span.start_line, 3);
    assert_eq!(f.span.end_line, 5);
    assert_eq!(f.id.stable_key(), format!("src/math/ops.rs:{}:{}:Function", f.span.start_byte, f.span.end_byte));
    assert_eq!(output.file.byte_count, source.len());
    assert_eq!(output.file.content_hash.len(), 64);
}

#[test]
fn rust_attributes_are_read_nearest_first() {
    let parser = create_parser(Language::Rust);
    let source = b"#[derive(Debug)]\n#[allow(dead_code)]\nstruct S;\n";
    let output = parser.parse(source, "s.rs").unwrap();
    let names: Vec<&str> = output.symbols[0].annotations.iter().map(|a| a.name.as_str()).collect();
    assert_eq!(names, vec!["allow", "derive"]);
    // an attribute between a doc comment and its item hides the comment
    let hidden = parser.parse(b"/// Doc.\n#[inline]\nfn f() {}\n", "s.rs").unwrap();
    assert!(hidden.symbols[0].doc.is_none());
}

#[test]
fn rust_impl_methods_are_named_under_their_type() {
    let parser = create_parser(Language::Rust);
    let source = b"mod outer {\n    use std::fmt;\n    impl fmt::Display for Foo {\n        fn fmt(&self) {}\n    }\n}\n";
    let output = parser.parse(source, "lib.rs").unwrap();
    let names: Vec<&str> = output.symbols.iter().map(|s| s.qualified_name.as_str()).collect();
    assert_eq!(names, vec!["lib::outer", "Foo::fmt"]);
    assert_eq!(output.symbols[1].kind, SymbolKind::Method);
    assert_eq!(output.references.len(), 2);
    assert_eq!(output.references[0].kind, ReferenceKind::Import);
    assert!(matches!(&output.references[0].target, ReferenceTarget::Unresolved(t) if t == "std::fmt"));
    assert_eq!(output.references[1].kind, ReferenceKind::Implements);
    assert!(matches!(&output.references[1].target, ReferenceTarget::Unresolved(t) if t == "fmt::Display"));
}

#[test]
fn rust_syntax_errors_give_partial_status() {
    let parser = create_parser(Language::Rust);
    let output = parser.parse(b"fn broken( {", "x.rs").unwrap();
    assert_eq!(output.file.parse_status, ParseStatus::PartialSuccess);
}

#[test]
fn long_signatures_are_cut_at_two_hundred_bytes() {
    let parser = create_parser(Language::Rust);
    let long_name = "a".repeat(250);
    let source = format!("fn {}() {{}}\n", long_name);
    let output = parser.parse(source.as_bytes(), "x.rs").unwrap();
    let sig = output.symbols[0].signature.clone().unwrap();
    assert_eq!(sig.len(), 203);
    assert!(sig.ends_with("..."));
}

#[test]
fn signature_cut_inside_a_character_is_refused() {
    let parser = create_parser(Language::Rust);
    let name = format!("{}é{}", "a".repeat(196), "b".repeat(10));
    let source = format!("fn {}() {{}}\n", name);
    assert!(parser.parse_checked(source.as_bytes(), "x.rs").is_none());
}

#[test]
fn python_methods_and_decorators() {
    let parser = create_parser(Language::Python);
    let source = b"class A:\n    @staticmethod\n    def run():\n        pass\n";
    let output = parser.parse(source, "pkg/mod.py").unwrap();
    let names: Vec<&str> = output.symbols.iter().map(|s| s.qualified_name.as_str()).collect();
    assert_eq!(names, vec!["pkg.mod.A", "pkg.mod.run"]);
    assert_eq!(output.symbols[1].kind, SymbolKind::Method);
    assert_eq!(output.symbols[1].annotations[0].name, "staticmethod");
    assert_eq!(output.symbols[1].signature.as_deref(), Some("def run()"));
}

#[test]
fn java_fields_constructors_and_javadoc() {
    let parser = create_parser(Language::Java);
    let source = b"/** The service.\n * Does work. */\n@Service\npublic class S<T> {\n  private int count;\n  protected S() {}\n}\n";
    let output = parser.parse(source, "src/S.java").unwrap();
    let c = &output.symbols[0];
    assert_eq!(c.qualified_name, "src.S.S");
    assert_eq!(c.visibility, Visibility::Public);
    assert_eq!(c.annotations[0].name, "Service");
    assert_eq!(c.type_params, vec!["T".to_string()]);
    let kinds: Vec<SymbolKind> = output.symbols.iter().map(|s| s.kind).collect();
    assert_eq!(kinds, vec![SymbolKind::Class, SymbolKind::Field, SymbolKind::Constructor]);
    assert_eq!(output.symbols[1].qualified_name, "src.S.count");
    assert_eq!(output.symbols[1].visibility, Visibility::Private);
    assert_eq!(output.symbols[2].visibility, Visibility::Protected);
}

#[test]
fn typescript_exported_constants_and_jsdoc() {
    let parser = create_parser(Language::TypeScript);
    let source = b"/** Limits. */\nexport const A = 1, B = 2;\nconst hidden = 3;\nexport function f() {}\n";
    let output = parser.parse(source, "src/app.ts").unwrap();
    let names: Vec<&str> = output.symbols.iter().map(|s| s.qualified_name.as_str()).collect();
    assert_eq!(names, vec!["src/app:A", "src/app:B", "src/app:f"]);
    assert_eq!(output.symbols[0].kind, SymbolKind::Constant);
    assert_eq!(output.symbols[0].doc.as_ref().unwrap().raw, "Limits.");
    assert_eq!(output.symbols[2].visibility, Visibility::Public);
}

#[test]
fn vue_component_holds_script_symbols() {
    let parser = create_parser(Language::Vue);
    let source = b"<template>\n  <div/>\n</template>\n<script lang=\"ts\">\nexport function setup() {}\n</script>\n";
    let output = parser.parse(source, "src/Widget.vue").unwrap();
    assert_eq!(output.file.language, Language::Vue);
    let comp = &output.symbols[0];
    assert_eq!(comp.kind, SymbolKind::Component);
    assert_eq!(comp.qualified_name, "src/Widget.vue:Widget");
    assert_eq!(comp.signature.as_deref(), Some("<Widget>"));
    assert_eq!(comp.span.end_line, 6);
    assert_eq!(output.symbols.len(), 2);
    let f = &output.symbols[1];
    assert_eq!(f.qualified_name, "src/Widget:setup");
    assert_eq!(f.span.start_line, 5);
    assert_eq!(f.parent.as_ref().unwrap().qualified_name(), "src/Widget.vue:Widget");
    assert_eq!(comp.children.len(), 1);
}

#[test]
fn vue_rejects_invalid_utf8() {
    let parser = create_parser(Language::Vue);
    let err = parser.parse(&[0xff, 0xfe], "a.vue").unwrap_err();
    assert!(err.to_string().contains("Invalid UTF-8: "));
}
