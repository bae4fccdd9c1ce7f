//! The generation run: the steps that fill the repository model from the
//! files read, file by file. Reading the files, and the order of the phases,
//! are left to the caller.

use vstd::prelude::*;

use crate::config::WikiGenConfig;
use crate::endpoint::axum_extractor::{axum_scannable, axum_scannable_exec};
use crate::endpoint::{detect_framework, spec_detect_framework, EndpointExtractor};
use crate::error::WikiGenResult;
use crate::ir::{
    endpoint_views, ApiSpec, AuthInfo, Doc, Endpoint, EndpointSource, Language, ManifestInfo, RepoIR,
    TypeRef,
};
use crate::parser::{create_parser, ParseOutput};

verus! {

/// `String::from_utf8_lossy`: the text of the bytes, each invalid sequence
/// replaced by U+FFFD.
pub uninterp spec fn utf8_lossy(bytes: Seq<u8>) -> Seq<char>;

/// `String::from_utf8_lossy`. Valid UTF-8 is decoded as it is.
#[verifier::external_body]
pub(crate) fn utf8_lossy_string(bytes: &[u8]) -> (r: String)
    ensures
        r@ == utf8_lossy(bytes@),
        vstd::utf8::valid_utf8(bytes@) ==> r@ == vstd::utf8::decode_utf8(bytes@),
{
    String::from_utf8_lossy(bytes).into_owned()
}

fn copy_type_ref(t: &Option<TypeRef>) -> (r: Option<TypeRef>)
    ensures
        r == *t,
{
    match t {
        Some(TypeRef::SymbolRef(id)) => Some(TypeRef::SymbolRef(id.dup())),
        Some(TypeRef::Named(n)) => Some(TypeRef::Named(n.clone())),
        None => None,
    }
}

/// A copy of an endpoint.
pub fn copy_endpoint(e: &Endpoint) -> (r: Endpoint)
    ensures
        r@ == e@,
{
    Endpoint {
        method: e.method,
        path: e.path.clone(),
        handler: match &e.handler {
            Some(h) => Some(h.dup()),
            None => None,
        },
        source: match &e.source {
            EndpointSource::CodeExtraction(s) => EndpointSource::CodeExtraction(s.clone()),
            EndpointSource::Spec(k) => EndpointSource::Spec(*k),
        },
        file: e.file.clone(),
        span: e.span,
        request_type: copy_type_ref(&e.request_type),
        response_type: copy_type_ref(&e.response_type),
        auth: AuthInfo { signals: crate::ir::copy_strings(&e.auth.signals), classification: e.auth.classification },
        tags: crate::ir::copy_strings(&e.tags),
        doc: match &e.doc {
            Some(d) => Some(d.dup()),
            None => None,
        },
    }
}

/// Whether the endpoints of a file can be scanned: the Axum scan runs through
/// every line of a file it is chosen for.
pub open spec fn endpoints_scannable(content: Seq<u8>, file_path: Seq<char>) -> bool {
    spec_detect_framework(utf8_lossy(content), file_path) == Some(0int) ==> axum_scannable(content)
}

/// Runs the generation steps over a configuration.
pub struct WikiGenerator {
    config: WikiGenConfig,
}

impl WikiGenerator {
    pub fn new(config: WikiGenConfig) -> (r: Self)
        ensures
            r.spec_config() == config,
    {
        WikiGenerator { config }
    }

    pub closed spec fn spec_config(&self) -> WikiGenConfig {
        self.config
    }

    pub fn config(&self) -> (r: &WikiGenConfig)
        ensures
            *r == self.spec_config(),
    {
        &self.config
    }

    /// Parses one source file with the parser of its language; `None` where
    /// the parse cannot run through (see `LanguageParser::parse_checked`).
    pub fn parse_file(language: Language, content: &[u8], relative_path: &str) -> (r: Option<WikiGenResult<ParseOutput>>)
        ensures
            match r {
                None => !create_parser_spec(language).finishes(content@, relative_path@),
                Some(x) => create_parser_spec(language).finishes(content@, relative_path@)
                    && create_parser_spec(language).result_ok(x, content@, relative_path@),
            },
    {
        let p = create_parser(language);
        p.parse_checked(content, relative_path)
    }

    /// Adds a parsed file to the model: its file record, symbols, references
    /// and diagnostics.
    pub fn add_parsed(ir: &mut RepoIR, output: ParseOutput)
        ensures
            final(ir).repo_root == old(ir).repo_root,
            final(ir).files@ == old(ir).files@.push(output.file),
            final(ir).symbols@ == old(ir).symbols@ + output.symbols@,
            final(ir).references@ == old(ir).references@ + output.references@,
            final(ir).diagnostics@ == old(ir).diagnostics@ + output.diagnostics@,
            final(ir).endpoints@ == old(ir).endpoints@,
            final(ir).manifests@ == old(ir).manifests@,
            final(ir).specs@ == old(ir).specs@,
    {
        let ParseOutput { file, symbols, references, diagnostics } = output;
        let mut symbols = symbols;
        let mut references = references;
        let mut diagnostics = diagnostics;
        ir.files.push(file);
        ir.symbols.append(&mut symbols);
        ir.references.append(&mut references);
        ir.diagnostics.append(&mut diagnostics);
    }

    /// Adds an extracted manifest; a failed extraction leaves the model as it is.
    pub fn add_manifest(ir: &mut RepoIR, extracted: WikiGenResult<ManifestInfo>)
        ensures
            match extracted {
                Ok(m) => final(ir).manifests@ == old(ir).manifests@.push(m),
                Err(_) => final(ir).manifests@ == old(ir).manifests@,
            },
            final(ir).repo_root == old(ir).repo_root,
            final(ir).files@ == old(ir).files@,
            final(ir).symbols@ == old(ir).symbols@,
            final(ir).references@ == old(ir).references@,
            final(ir).diagnostics@ == old(ir).diagnostics@,
            final(ir).endpoints@ == old(ir).endpoints@,
            final(ir).specs@ == old(ir).specs@,
    {
        match extracted {
            Ok(m) => ir.manifests.push(m),
            Err(_) => {},
        }
    }

    /// Adds a discovered API spec: its endpoints join the model's, and the
    /// spec is kept; a failed discovery leaves the model as it is.
    pub fn add_spec(ir: &mut RepoIR, discovered: WikiGenResult<ApiSpec>)
        ensures
            match discovered {
                Ok(s) => final(ir).specs@ == old(ir).specs@.push(s)
                    && endpoint_views(final(ir).endpoints@) == endpoint_views(old(ir).endpoints@) + endpoint_views(s.endpoints@),
                Err(_) => final(ir).specs@ == old(ir).specs@ && final(ir).endpoints@ == old(ir).endpoints@,
            },
            final(ir).repo_root == old(ir).repo_root,
            final(ir).files@ == old(ir).files@,
            final(ir).symbols@ == old(ir).symbols@,
            final(ir).references@ == old(ir).references@,
            final(ir).diagnostics@ == old(ir).diagnostics@,
            final(ir).manifests@ == old(ir).manifests@,
    {
        match discovered {
            Ok(s) => {
                let ghost before = endpoint_views(ir.endpoints@);
                let mut k: usize = 0;
                while k < s.endpoints.len()
                    invariant
                        k <= s.endpoints@.len(),
                        ir.repo_root == old(ir).repo_root,
                        ir.files@ == old(ir).files@,
                        ir.symbols@ == old(ir).symbols@,
                        ir.references@ == old(ir).references@,
                        ir.diagnostics@ == old(ir).diagnostics@,
                        ir.manifests@ == old(ir).manifests@,
                        ir.specs@ == old(ir).specs@,
                        before == endpoint_views(old(ir).endpoints@),
                        endpoint_views(ir.endpoints@) == before + endpoint_views(s.endpoints@).take(k as int),
                    decreases s.endpoints@.len() - k,
                {
                    let e = copy_endpoint(&s.endpoints[k]);
                    let ghost ev = e@;
                    let ghost b = ir.endpoints@;
                    ir.endpoints.push(e);
                    assert(endpoint_views(ir.endpoints@) =~= endpoint_views(b).push(ev));
                    assert(endpoint_views(s.endpoints@).take(k + 1) =~= endpoint_views(s.endpoints@).take(k as int).push(ev));
                    k = k + 1;
                }
                assert(endpoint_views(s.endpoints@).take(k as int) =~= endpoint_views(s.endpoints@));
                ir.specs.push(s);
            },
            Err(_) => {},
        }
    }

    /// Adds the endpoints a framework extractor finds in a source file, when
    /// the file is written against a framework that is recognised.
    pub fn add_framework_endpoints(ir: &mut RepoIR, content: &[u8], file_path: &str)
        requires
            endpoints_scannable(content@, file_path@),
        ensures
            match spec_detect_framework(utf8_lossy(content@), file_path@) {
                Some(k) => endpoint_views(final(ir).endpoints@) == endpoint_views(old(ir).endpoints@) + (if k == 0 {
                    crate::endpoint::axum_extractor::spec_axum_endpoints(old(ir).symbols@, content@, file_path@)
                } else if k == 1 {
                    crate::endpoint::fastapi_extractor::spec_fastapi_endpoints(old(ir).symbols@, content@, file_path@)
                } else {
                    crate::endpoint::spring_extractor::spec_spring_endpoints(old(ir).symbols@, content@, file_path@)
                }),
                None => final(ir).endpoints@ == old(ir).endpoints@,
            },
            final(ir).repo_root == old(ir).repo_root,
            final(ir).files@ == old(ir).files@,
            final(ir).symbols@ == old(ir).symbols@,
            final(ir).references@ == old(ir).references@,
            final(ir).diagnostics@ == old(ir).diagnostics@,
            final(ir).manifests@ == old(ir).manifests@,
            final(ir).specs@ == old(ir).specs@,
    {
        let text = utf8_lossy_string(content);
        match detect_framework(text.as_str(), file_path) {
            Some(x) => {
                match x.extract(ir.symbols.as_slice(), content, file_path) {
                    Ok(found) => {
                        let mut found = found;
                        let ghost fv = endpoint_views(found@);
                        let ghost before = ir.endpoints@;
                        ir.endpoints.append(&mut found);
                        assert(endpoint_views(ir.endpoints@) =~= endpoint_views(before) + fv);
                    },
                    Err(_) => {},
                }
            },
            None => {},
        }
    }

    /// Whether a file's endpoints can be scanned (see [`endpoints_scannable`]).
    pub fn endpoints_scannable_exec(content: &[u8], file_path: &str) -> (r: bool)
        ensures
            r == endpoints_scannable(content@, file_path@),
    {
        let text = utf8_lossy_string(content);
        match detect_framework(text.as_str(), file_path) {
            Some(EndpointExtractor::Axum(_)) => axum_scannable_exec(content),
            _ => true,
        }
    }
}

/// The parser `create_parser` gives for a language.
pub open spec fn create_parser_spec(language: Language) -> crate::parser::LanguageParser {
    match language {
        Language::Rust => crate::parser::LanguageParser::Rust(crate::parser::rust::RustParser::new_spec()),
        Language::Python => crate::parser::LanguageParser::Python(crate::parser::python::PythonParser::new_spec()),
        Language::Java => crate::parser::LanguageParser::Java(crate::parser::java::JavaParser::new_spec()),
        Language::TypeScript | Language::JavaScript | Language::Html => crate::parser::LanguageParser::TypeScript(crate::parser::typescript::TypeScriptParser::new_spec()),
        Language::Vue => crate::parser::LanguageParser::Vue(crate::parser::vue::VueSfcParser::new_spec()),
    }
}

} // verus!
