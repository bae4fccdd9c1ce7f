//! Source parsers: each reads a file's syntax tree and collects its symbols
//! and the references they make.

pub mod extract;
pub mod java;
pub mod python;
pub mod rust;
pub mod syntax;
pub mod typescript;
pub mod vue;

use vstd::prelude::*;

use crate::error::{WikiGenError, WikiGenResult};
use crate::hashing::{compute_file_hash, hex_lower, sha256_digest};
use crate::ir::{reference_views, symbol_views, Diagnostic, FileIR, Language, ParseStatus, Reference, Symbol};
use crate::parser::extract::Collected;
use crate::parser::java::{java_walk, JavaParser};
use crate::parser::python::{py_walk, PythonParser};
use crate::parser::rust::{rust_walk, RustParser};
use crate::parser::typescript::{ts_walk, TypeScriptParser};
use crate::parser::vue::{vue_finishes, vue_result_ok, VueSfcParser};
use crate::parser::syntax::{syntax_tree, Grammar, SyntaxError, SyntaxNode};
use crate::text::{append_str, chars_of, string_of};

verus! {

/// What parsing one file gives.
#[derive(Debug)]
pub struct ParseOutput {
    pub file: FileIR,
    pub symbols: Vec<Symbol>,
    pub references: Vec<Reference>,
    pub diagnostics: Vec<Diagnostic>,
}

/// The status of a parse: partial where the tree holds a syntax error.
pub open spec fn tree_status(t: Seq<SyntaxNode>) -> ParseStatus {
    if t.len() > 0 && t[0].has_error {
        ParseStatus::PartialSuccess
    } else {
        ParseStatus::Success
    }
}

/// The file record of a parsed file: its path, language, the hex SHA-256 of
/// its bytes, the parse status and its size.
pub open spec fn file_record_ok(file: FileIR, path: Seq<char>, language: Language, source: Seq<u8>, t: Seq<SyntaxNode>) -> bool {
    &&& file.path@ == path
    &&& file.language == language
    &&& file.content_hash@ == hex_lower(sha256_digest(source))
    &&& file.parse_status == tree_status(t)
    &&& file.byte_count == source.len()
}

/// The output of a parse holds the file record and exactly what the walk collected.
pub open spec fn output_ok(out: ParseOutput, path: Seq<char>, language: Language, source: Seq<u8>, t: Seq<SyntaxNode>, c: Collected) -> bool {
    &&& file_record_ok(out.file, path, language, source, t)
    &&& symbol_views(out.symbols@) == c.symbols
    &&& reference_views(out.references@) == c.references
    &&& out.diagnostics@.len() == 0
}

/// The error a parser reports when no tree comes back.
pub open spec fn tree_error_ok(e: WikiGenError, err: SyntaxError, label: Seq<char>, path: Seq<char>) -> bool {
    match err {
        SyntaxError::Language(m) => e matches WikiGenError::Parse { file, message }
            && file@ == path && message@ == "Failed to set "@ + label + " language: "@ + m@,
        SyntaxError::NoTree => e matches WikiGenError::Parse { file, message }
            && file@ == path && message@ == "Tree-sitter parse returned None"@,
    }
}

/// What a tree-sitter parser returns for `source`, where `walk` is what it
/// collects from a tree.
pub open spec fn parse_result_ok(
    r: WikiGenResult<ParseOutput>,
    grammar: Grammar,
    label: Seq<char>,
    language: Language,
    source: Seq<u8>,
    path: Seq<char>,
    walk: spec_fn(Seq<SyntaxNode>) -> Option<Collected>,
) -> bool {
    match syntax_tree(grammar, source) {
        Err(err) => r matches Err(e) && tree_error_ok(e, err, label, path),
        Ok(t) => r matches Ok(out) && walk(t) matches Some(c) && output_ok(out, path, language, source, t, c),
    }
}

/// Whether the walk finishes on the tree of `source`: it does unless a
/// signature would have to be cut inside a character.
pub open spec fn walk_finishes(grammar: Grammar, source: Seq<u8>, walk: spec_fn(Seq<SyntaxNode>) -> Option<Collected>) -> bool {
    match syntax_tree(grammar, source) {
        Ok(t) => walk(t) is Some,
        Err(_) => true,
    }
}

pub fn tree_error(err: SyntaxError, label: &str, path: &str) -> (e: WikiGenError)
    ensures
        tree_error_ok(e, err, label@, path@),
{
    match err {
        SyntaxError::Language(m) => {
            let mut v: Vec<char> = Vec::new();
            append_str(&mut v, "Failed to set ");
            append_str(&mut v, label);
            append_str(&mut v, " language: ");
            append_str(&mut v, m.as_str());
            assert(v@ =~= "Failed to set "@ + label@ + " language: "@ + m@);
            WikiGenError::Parse { file: path.to_owned(), message: string_of(v.as_slice()) }
        },
        SyntaxError::NoTree => WikiGenError::Parse {
            file: path.to_owned(),
            message: "Tree-sitter parse returned None".to_owned(),
        },
    }
}

pub fn file_record(t: &Vec<SyntaxNode>, source: &[u8], path: &str, language: Language) -> (r: FileIR)
    ensures
        file_record_ok(r, path@, language, source@, t@),
{
    let status = if t.len() > 0 && t[0].has_error {
        ParseStatus::PartialSuccess
    } else {
        ParseStatus::Success
    };
    FileIR {
        path: path.to_owned(),
        language,
        content_hash: compute_file_hash(source),
        parse_status: status,
        byte_count: source.len(),
    }
}

/// A parser for one language.
pub enum LanguageParser {
    Rust(RustParser),
    Python(PythonParser),
    Java(JavaParser),
    TypeScript(TypeScriptParser),
    Vue(VueSfcParser),
}

/// The parser each language is read with: JavaScript and HTML go to the
/// TypeScript parser.
pub fn create_parser(language: Language) -> (r: LanguageParser)
    ensures
        r == (match language {
            Language::Rust => LanguageParser::Rust(RustParser::new_spec()),
            Language::Python => LanguageParser::Python(PythonParser::new_spec()),
            Language::Java => LanguageParser::Java(JavaParser::new_spec()),
            Language::TypeScript | Language::JavaScript | Language::Html => LanguageParser::TypeScript(TypeScriptParser::new_spec()),
            Language::Vue => LanguageParser::Vue(VueSfcParser::new_spec()),
        }),
{
    match language {
        Language::Rust => LanguageParser::Rust(RustParser::new()),
        Language::Python => LanguageParser::Python(PythonParser::new()),
        Language::Java => LanguageParser::Java(JavaParser::new()),
        Language::TypeScript | Language::JavaScript | Language::Html => LanguageParser::TypeScript(TypeScriptParser::new()),
        Language::Vue => LanguageParser::Vue(VueSfcParser::new()),
    }
}

impl LanguageParser {
    pub open spec fn spec_language(&self) -> Language {
        match self {
            LanguageParser::Rust(_) => Language::Rust,
            LanguageParser::Python(_) => Language::Python,
            LanguageParser::Java(_) => Language::Java,
            LanguageParser::TypeScript(_) => Language::TypeScript,
            LanguageParser::Vue(_) => Language::Vue,
        }
    }

    pub fn language(&self) -> (r: Language)
        ensures
            r == self.spec_language(),
    {
        match self {
            LanguageParser::Rust(p) => p.language(),
            LanguageParser::Python(p) => p.language(),
            LanguageParser::Java(p) => p.language(),
            LanguageParser::TypeScript(p) => p.language(),
            LanguageParser::Vue(p) => p.language(),
        }
    }

    /// Whether parsing `source` finishes (no signature cut inside a character,
    /// no section that cannot be cut).
    pub open spec fn finishes(&self, source: Seq<u8>, path: Seq<char>) -> bool {
        match self {
            LanguageParser::Rust(_) => walk_finishes(Grammar::Rust, source, rust_walk(source, path)),
            LanguageParser::Python(_) => walk_finishes(Grammar::Python, source, py_walk(source, path)),
            LanguageParser::Java(_) => walk_finishes(Grammar::Java, source, java_walk(source, path)),
            LanguageParser::TypeScript(_) => walk_finishes(Grammar::TypeScript, source, ts_walk(source, path)),
            LanguageParser::Vue(_) => vue_finishes(source, path),
        }
    }

    /// What the parser returns for `source` at `path`.
    pub open spec fn result_ok(&self, r: WikiGenResult<ParseOutput>, source: Seq<u8>, path: Seq<char>) -> bool {
        match self {
            LanguageParser::Rust(_) => parse_result_ok(r, Grammar::Rust, "Rust"@, Language::Rust, source, path, rust_walk(source, path)),
            LanguageParser::Python(_) => parse_result_ok(r, Grammar::Python, "Python"@, Language::Python, source, path, py_walk(source, path)),
            LanguageParser::Java(_) => parse_result_ok(r, Grammar::Java, "Java"@, Language::Java, source, path, java_walk(source, path)),
            LanguageParser::TypeScript(_) => parse_result_ok(r, Grammar::TypeScript, "TypeScript"@, Language::TypeScript, source, path, ts_walk(source, path)),
            LanguageParser::Vue(_) => vue_result_ok(r, source, path),
        }
    }

    pub fn parse(&self, source: &[u8], file_path: &str) -> (r: WikiGenResult<ParseOutput>)
        requires
            self.finishes(source@, file_path@),
        ensures
            self.result_ok(r, source@, file_path@),
    {
        match self {
            LanguageParser::Rust(p) => p.parse(source, file_path),
            LanguageParser::Python(p) => p.parse(source, file_path),
            LanguageParser::Java(p) => p.parse(source, file_path),
            LanguageParser::TypeScript(p) => p.parse(source, file_path),
            LanguageParser::Vue(p) => p.parse(source, file_path),
        }
    }

    /// [`LanguageParser::parse`], or `None` where it cannot finish.
    pub fn parse_checked(&self, source: &[u8], file_path: &str) -> (r: Option<WikiGenResult<ParseOutput>>)
        ensures
            match r {
                None => !self.finishes(source@, file_path@),
                Some(x) => self.finishes(source@, file_path@) && self.result_ok(x, source@, file_path@),
            },
    {
        match self {
            LanguageParser::Rust(p) => p.parse_checked(source, file_path),
            LanguageParser::Python(p) => p.parse_checked(source, file_path),
            LanguageParser::Java(p) => p.parse_checked(source, file_path),
            LanguageParser::TypeScript(p) => p.parse_checked(source, file_path),
            LanguageParser::Vue(p) => p.parse_checked(source, file_path),
        }
    }
}

} // verus!
