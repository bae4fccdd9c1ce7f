//! Symbol documentation: the documentation derived from a symbol's own
//! comments and signature, the project overview, the reading of a model's
//! reply, and the cached run over all public symbols.

use vstd::prelude::*;

use crate::cache::{now_rfc3339, spec_lookup, CacheEntry, CacheStore};
use crate::config::LlmConfig;
use crate::evidence::{
    build_evidence_pack, format_evidence_prompt, graph_context, pack_ok, prompt_text, section, snippet,
    snippet_ok, EvidenceRef, LlmDocResult,
};
use crate::graph::{CodeGraph, GraphView};
use crate::hashing::{compute_hash, spec_text_hash};
use crate::ir::opt_str;
use crate::ir::{RepoIR, Symbol, SymbolKind, Visibility};
use crate::json::JsonValue;
use crate::error::WikiGenError;
use crate::page_builder::{count_languages, count_views, doc_lookup, find_doc, lang_counts, symbol_key};
use crate::text::{
    append_str, append_vec, chars_of, decimal, decimal_vec, find, find_vec, join, join_vec, lines,
    lines_vec, rfind, rfind_vec, starts_with, starts_with_vec, string_of, subvec, trim, trim_vec, views,
};

verus! {

// ---------------------------------------------------------------------------
// Imports of a file
// ---------------------------------------------------------------------------

/// A line that imports something: after trimming it starts with `use `,
/// `import `, `from ` or `require(`.
pub open spec fn is_import_line(l: Seq<char>) -> bool {
    let t = trim(l);
    starts_with(t, "use "@) || starts_with(t, "import "@) || starts_with(t, "from "@) || starts_with(t, "require("@)
}

/// The first `n` import lines from `k` on.
pub open spec fn import_lines(ls: Seq<Seq<char>>, k: int, n: int) -> Seq<Seq<char>>
    decreases ls.len() - k,
{
    if k < 0 || k >= ls.len() || n <= 0 {
        Seq::empty()
    } else if is_import_line(ls[k]) {
        seq![ls[k]] + import_lines(ls, k + 1, n - 1)
    } else {
        import_lines(ls, k + 1, n)
    }
}

/// The first thirty import lines of a source, joined by newlines.
pub open spec fn import_text(source: Seq<char>) -> Seq<char> {
    join(import_lines(lines(source), 0, 30), "\n"@)
}

fn is_import_line_exec(l: &Vec<char>) -> (r: bool)
    ensures
        r == is_import_line(l@),
{
    let t = trim_vec(l);
    starts_with_vec(&t, &chars_of("use ")) || starts_with_vec(&t, &chars_of("import "))
        || starts_with_vec(&t, &chars_of("from ")) || starts_with_vec(&t, &chars_of("require("))
}

/// The import lines of a source file (at most thirty), joined by newlines.
pub fn extract_imports(source: &str) -> (r: String)
    ensures
        r@ == import_text(source@),
{
    let ls = lines_vec(&chars_of(source));
    let ghost lv = views(ls@);
    let mut picked: Vec<Vec<char>> = Vec::new();
    let mut k: usize = 0;
    while k < ls.len() && picked.len() < 30
        invariant
            k <= ls@.len(),
            lv == views(ls@),
            picked@.len() <= 30,
            views(picked@) + import_lines(lv, k as int, 30 - picked@.len()) == import_lines(lv, 0, 30),
        decreases ls@.len() - k,
    {
        assert(lv[k as int] == ls@[k as int]@);
        if is_import_line_exec(&ls[k]) {
            let ghost before = views(picked@);
            let x = crate::text::copy_vec(&ls[k]);
            picked.push(x);
            assert(views(picked@) =~= before.push(x@));
            assert(before + (seq![lv[k as int]] + import_lines(lv, k + 1, 30 - before.len() - 1))
                =~= views(picked@) + import_lines(lv, k + 1, 30 - picked@.len()));
        }
        k = k + 1;
    }
    assert(import_lines(lv, k as int, 30 - picked@.len()) =~= Seq::<Seq<char>>::empty());
    assert(views(picked@) =~= import_lines(lv, 0, 30));
    let nl = chars_of("\n");
    let out = join_vec(&picked, &nl);
    string_of(out.as_slice())
}

// ---------------------------------------------------------------------------
// Documentation results as values
// ---------------------------------------------------------------------------

pub struct DocResultView {
    pub summary: Seq<char>,
    pub detailed: Seq<char>,
    pub usage_example: Option<Seq<char>>,
    pub sources: Seq<(Seq<char>, usize, usize)>,
}

impl View for LlmDocResult {
    type V = DocResultView;

    open spec fn view(&self) -> DocResultView {
        DocResultView {
            summary: self.summary@,
            detailed: self.detailed@,
            usage_example: match self.usage_example {
                Some(u) => Some(u@),
                None => None,
            },
            sources: Seq::new(self.sources@.len(), |i: int| (self.sources@[i].file@, self.sources@[i].start_line, self.sources@[i].end_line)),
        }
    }
}

/// A copy of a result.
pub fn dup_result(r: &LlmDocResult) -> (c: LlmDocResult)
    ensures
        c@ == r@,
{
    let mut sources: Vec<EvidenceRef> = Vec::new();
    let mut k: usize = 0;
    while k < r.sources.len()
        invariant
            k <= r.sources@.len(),
            sources@.len() == k,
            forall|i: int| 0 <= i < k ==> (#[trigger] sources@[i]).file@ == r.sources@[i].file@
                && sources@[i].start_line == r.sources@[i].start_line && sources@[i].end_line == r.sources@[i].end_line,
        decreases r.sources@.len() - k,
    {
        let s = &r.sources[k];
        sources.push(EvidenceRef { file: s.file.clone(), start_line: s.start_line, end_line: s.end_line });
        k = k + 1;
    }
    let c = LlmDocResult {
        summary: r.summary.clone(),
        detailed: r.detailed.clone(),
        usage_example: match &r.usage_example {
            Some(u) => Some(u.clone()),
            None => None,
        },
        sources,
    };
    assert(c@.sources =~= r@.sources);
    c
}

/// The source reference of a symbol: its file and lines.
pub open spec fn symbol_source(s: Symbol) -> Seq<(Seq<char>, usize, usize)> {
    seq![(s.file@, s.span.start_line, s.span.end_line)]
}

fn source_of(s: &Symbol) -> (r: Vec<EvidenceRef>)
    ensures
        r@.len() == 1,
        r@[0].file@ == s.file@,
        r@[0].start_line == s.span.start_line,
        r@[0].end_line == s.span.end_line,
{
    let mut v: Vec<EvidenceRef> = Vec::new();
    v.push(EvidenceRef { file: s.file.clone(), start_line: s.span.start_line, end_line: s.span.end_line });
    v
}

// ---------------------------------------------------------------------------
// Documentation from the symbol itself
// ---------------------------------------------------------------------------

/// `kind `name``, the summary of a symbol with nothing better.
pub open spec fn kind_and_name(s: Symbol) -> Seq<char> {
    s.kind.spec_name() + " `"@ + s.qualified_name@ + "`"@
}

/// The documentation of a symbol from its own doc comment and signature.
pub open spec fn fallback_view(s: Symbol) -> DocResultView {
    DocResultView {
        summary: match s.doc {
            Some(d) => match d.summary {
                Some(x) => x@,
                None => kind_and_name(s),
            },
            None => kind_and_name(s),
        },
        detailed: match s.doc {
            Some(d) => d.raw@,
            None => match s.signature {
                Some(sig) => "A "@ + s.kind.spec_name() + " defined as:\n\n```\n"@ + sig@ + "\n```"@,
                None => "A "@ + s.kind.spec_name() + " named `"@ + s.qualified_name@ + "`."@,
            },
        },
        usage_example: None,
        sources: symbol_source(s),
    }
}

fn kind_and_name_exec(s: &Symbol) -> (r: String)
    ensures
        r@ == kind_and_name(*s),
{
    let mut out = chars_of(s.kind.to_string().as_str());
    append_str(&mut out, " `");
    append_str(&mut out, s.qualified_name.as_str());
    append_str(&mut out, "`");
    string_of(out.as_slice())
}

/// Generates documentation without a model.
pub struct LlmDocGenerator {
    config: LlmConfig,
}

impl LlmDocGenerator {
    pub fn new(config: LlmConfig) -> (r: Self)
        ensures
            r.spec_config() == config,
    {
        LlmDocGenerator { config }
    }

    pub closed spec fn spec_config(&self) -> LlmConfig {
        self.config
    }

    pub fn config(&self) -> (r: &LlmConfig)
        ensures
            *r == self.spec_config(),
    {
        &self.config
    }

    /// The documentation of a symbol from its own doc comment and signature.
    pub fn generate_fallback(&self, symbol: &Symbol) -> (r: LlmDocResult)
        ensures
            r@ == fallback_view(*symbol),
    {
        let summary = match &symbol.doc {
            Some(d) => match &d.summary {
                Some(x) => x.clone(),
                None => kind_and_name_exec(symbol),
            },
            None => kind_and_name_exec(symbol),
        };
        let detailed = match &symbol.doc {
            Some(d) => d.raw.clone(),
            None => match &symbol.signature {
                Some(sig) => {
                    let mut out = chars_of("A ");
                    append_str(&mut out, symbol.kind.to_string().as_str());
                    append_str(&mut out, " defined as:\n\n```\n");
                    append_str(&mut out, sig.as_str());
                    append_str(&mut out, "\n```");
                    string_of(out.as_slice())
                },
                None => {
                    let mut out = chars_of("A ");
                    append_str(&mut out, symbol.kind.to_string().as_str());
                    append_str(&mut out, " named `");
                    append_str(&mut out, symbol.qualified_name.as_str());
                    append_str(&mut out, "`.");
                    string_of(out.as_slice())
                },
            },
        };
        let r = LlmDocResult { summary, detailed, usage_example: None, sources: source_of(symbol) };
        assert(r@.sources =~= symbol_source(*symbol));
        r
    }
}

// ---------------------------------------------------------------------------
// The project overview
// ---------------------------------------------------------------------------

/// One line per language with its number of files.
pub open spec fn language_lines(cs: Seq<(crate::ir::Language, nat)>) -> Seq<char>
    decreases cs.len(),
{
    if cs.len() == 0 {
        Seq::empty()
    } else {
        language_lines(cs.drop_last()) + "- **"@ + cs.last().0.spec_name() + "**: "@ + decimal(cs.last().1) + " files\n"@
    }
}

pub open spec fn is_key_symbol(s: Symbol) -> bool {
    s.visibility == Visibility::Public && (s.kind == SymbolKind::Struct || s.kind == SymbolKind::Trait
        || s.kind == SymbolKind::Class || s.kind == SymbolKind::Interface)
}

/// The first `n` public structs, traits, classes and interfaces from `k` on.
pub open spec fn key_symbols(syms: Seq<Symbol>, k: int, n: int) -> Seq<Symbol>
    decreases syms.len() - k,
{
    if k < 0 || k >= syms.len() || n <= 0 {
        Seq::empty()
    } else if is_key_symbol(syms[k]) {
        seq![syms[k]] + key_symbols(syms, k + 1, n - 1)
    } else {
        key_symbols(syms, k + 1, n)
    }
}

pub open spec fn key_symbol_line(s: Symbol, docs: Seq<(String, LlmDocResult)>) -> Seq<char> {
    "- **`"@ + s.qualified_name@ + "`** ("@ + s.kind.spec_name() + "): "@ + match doc_lookup(docs, symbol_key(s)) {
        Some(d) => d.summary@,
        None => "No description"@,
    } + "\n"@
}

pub open spec fn key_symbol_lines(syms: Seq<Symbol>, docs: Seq<(String, LlmDocResult)>) -> Seq<char>
    decreases syms.len(),
{
    if syms.len() == 0 {
        Seq::empty()
    } else {
        key_symbol_lines(syms.drop_last(), docs) + key_symbol_line(syms.last(), docs)
    }
}

/// The overview: the repository, its counts, its languages (in the order
/// they first appear) and its first twenty key symbols with their summaries.
pub open spec fn overview_text(ir: RepoIR, docs: Seq<(String, LlmDocResult)>) -> Seq<char> {
    "# Project Overview\n\n**Repository**: `"@ + ir.repo_root@ + "`\n\n"@
        + "- **Files**: "@ + decimal(ir.files@.len()) + "\n- **Symbols**: "@ + decimal(ir.symbols@.len())
        + "\n- **Endpoints**: "@ + decimal(ir.endpoints@.len()) + "\n\n"@
        + "## Languages\n\n"@ + language_lines(lang_counts(ir.files@))
        + "\n## Key Symbols\n\n"@ + key_symbol_lines(key_symbols(ir.symbols@, 0, 20), docs)
}

impl LlmDocGenerator {
    /// The project overview page text.
    pub fn generate_overview(&self, ir: &RepoIR, symbol_docs: &[(String, LlmDocResult)]) -> (r: String)
        ensures
            r@ == overview_text(*ir, symbol_docs@),
    {
        let mut out = chars_of("# Project Overview\n\n**Repository**: `");
        append_str(&mut out, ir.repo_root.as_str());
        append_str(&mut out, "`\n\n");
        append_str(&mut out, "- **Files**: ");
        append_vec(&mut out, &decimal_vec(ir.files.len()));
        append_str(&mut out, "\n- **Symbols**: ");
        append_vec(&mut out, &decimal_vec(ir.symbols.len()));
        append_str(&mut out, "\n- **Endpoints**: ");
        append_vec(&mut out, &decimal_vec(ir.endpoints.len()));
        append_str(&mut out, "\n\n");
        append_str(&mut out, "## Languages\n\n");
        let ghost head = out@;
        let cs = count_languages(ir.files.as_slice());
        let ghost cv = count_views(cs@);
        let mut k: usize = 0;
        while k < cs.len()
            invariant
                k <= cs@.len(),
                cv == count_views(cs@),
                out@ == head + language_lines(cv.take(k as int)),
            decreases cs@.len() - k,
        {
            assert(cv.take(k + 1).drop_last() =~= cv.take(k as int));
            let ghost o = out@;
            append_str(&mut out, "- **");
            append_str(&mut out, cs[k].0.to_string().as_str());
            append_str(&mut out, "**: ");
            append_vec(&mut out, &decimal_vec(cs[k].1));
            append_str(&mut out, " files\n");
            assert(out@ =~= o + ("- **"@ + cv[k as int].0.spec_name() + "**: "@ + decimal(cv[k as int].1) + " files\n"@));
            k = k + 1;
        }
        assert(cv.take(k as int) =~= cv);
        append_str(&mut out, "\n## Key Symbols\n\n");
        let ghost mid = out@;
        let ghost docs = symbol_docs@;
        let mut taken: usize = 0;
        let mut j: usize = 0;
        let ghost mut done: Seq<Symbol> = Seq::empty();
        while j < ir.symbols.len() && taken < 20
            invariant
                j <= ir.symbols@.len(),
                taken == done.len(),
                taken <= 20,
                docs == symbol_docs@,
                done + key_symbols(ir.symbols@, j as int, 20 - taken) == key_symbols(ir.symbols@, 0, 20),
                out@ == mid + key_symbol_lines(done, docs),
            decreases ir.symbols@.len() - j,
        {
            let s = &ir.symbols[j];
            let is_key = matches!(s.visibility, Visibility::Public)
                && matches!(s.kind, SymbolKind::Struct | SymbolKind::Trait | SymbolKind::Class | SymbolKind::Interface);
            if is_key {
                let ghost o = out@;
                append_str(&mut out, "- **`");
                append_str(&mut out, s.qualified_name.as_str());
                append_str(&mut out, "`** (");
                append_str(&mut out, s.kind.to_string().as_str());
                append_str(&mut out, "): ");
                let key = s.id.stable_key();
                match find_doc(symbol_docs, key.as_str()) {
                    Some(d) => append_str(&mut out, d.summary.as_str()),
                    None => append_str(&mut out, "No description"),
                }
                append_str(&mut out, "\n");
                proof {
                    assert(out@ =~= o + key_symbol_line(*s, docs));
                    let nd = done.push(*s);
                    assert(nd.drop_last() =~= done);
                    assert(done + (seq![*s] + key_symbols(ir.symbols@, j + 1, 20 - taken - 1)) =~= nd + key_symbols(ir.symbols@, j + 1, 20 - taken - 1));
                    done = nd;
                }
                taken = taken + 1;
            }
            j = j + 1;
        }
        proof {
            assert(key_symbols(ir.symbols@, j as int, 20 - taken) =~= Seq::<Symbol>::empty());
            assert(done =~= key_symbols(ir.symbols@, 0, 20));
        }
        string_of(out.as_slice())
    }
}

// ---------------------------------------------------------------------------
// Reading a model's reply
// ---------------------------------------------------------------------------

/// The part of a reply read as JSON: the trimmed reply from its first `{` to
/// its last `}`, or the whole trimmed reply when either is missing.
pub open spec fn reply_json(content: Seq<char>) -> Seq<char> {
    let t = trim(content);
    match (find(t, "{"@), rfind(t, "}"@)) {
        (Some(st), Some(en)) => t.subrange(st, en + 1),
        _ => t,
    }
}

/// Whether the JSON part can be cut: a last `}` never stands before the first `{`.
pub open spec fn reply_cut_ok(content: Seq<char>) -> bool {
    let t = trim(content);
    match (find(t, "{"@), rfind(t, "}"@)) {
        (Some(st), Some(en)) => st <= en + 1,
        _ => true,
    }
}

/// The JSON part of a reply.
pub fn reply_json_part(content: &str) -> (r: String)
    requires
        reply_cut_ok(content@),
    ensures
        r@ == reply_json(content@),
{
    let t = trim_vec(&chars_of(content));
    let open = chars_of("{");
    let close = chars_of("}");
    proof {
        reveal_strlit("{");
        reveal_strlit("}");
        crate::text::lemma_find_from_bounds(t@, "{"@, 0);
        crate::paths::lemma_rfind_before_bounds(t@, "}"@, t@.len() as int);
    }
    match find_vec(&t, &open) {
        Some(st) => match rfind_vec(&t, &close) {
            Some(en) => {
                assert(rfind(t@, "}"@) == Some(en as int));
                assert("}"@.len() == 1);
                let n = t.len();
                assert(en + 1 <= n);
                string_of(subvec(&t, st, en + 1).as_slice())
            },
            None => string_of(t.as_slice()),
        },
        None => string_of(t.as_slice()),
    }
}

/// A JSON value read as an optional string: `null` is none, a string is
/// itself, anything else fails.
pub open spec fn text_or_null(v: JsonValue) -> Option<Option<Seq<char>>> {
    match v {
        JsonValue::Null => Some(None),
        JsonValue::Str(s) => Some(Some(s@)),
        _ => None,
    }
}

/// An object member read as an optional string; a missing member is none.
pub open spec fn member_text(v: JsonValue, key: Seq<char>) -> Option<Option<Seq<char>>> {
    match v.spec_get(key) {
        Some(x) => text_or_null(x),
        None => Some(None),
    }
}

/// The fields `summary`, `detailed` and `usage_example` of a reply, as the
/// reply's deserialisation reads them: from an object, or from an array of
/// exactly three items in that order; `None` when it fails.
pub open spec fn reply_fields(v: JsonValue) -> Option<(Option<Seq<char>>, Option<Seq<char>>, Option<Seq<char>>)> {
    match v {
        JsonValue::Object(_) => match (member_text(v, "summary"@), member_text(v, "detailed"@), member_text(v, "usage_example"@)) {
            (Some(a), Some(b), Some(c)) => Some((a, b, c)),
            _ => None,
        },
        JsonValue::Array(items) => if items@.len() == 3 {
            match (text_or_null(items@[0]), text_or_null(items@[1]), text_or_null(items@[2])) {
                (Some(a), Some(b), Some(c)) => Some((a, b, c)),
                _ => None,
            }
        } else {
            None
        },
        _ => None,
    }
}

/// The first line of a reply (the reply itself when it has none), cut to 200 characters.
pub open spec fn reply_headline(content: Seq<char>) -> Seq<char> {
    let l = if lines(content).len() > 0 { lines(content)[0] } else { content };
    if l.len() > 200 { l.take(200) } else { l }
}

/// The documentation read from a reply, given the parsed JSON part (`None`
/// when it is not JSON).
pub open spec fn reply_view(content: Seq<char>, parsed: Option<JsonValue>, s: Symbol) -> DocResultView {
    match match parsed {
        Some(v) => reply_fields(v),
        None => None,
    } {
        Some((su, de, us)) => DocResultView {
            summary: match su {
                Some(x) => x,
                None => kind_and_name(s),
            },
            detailed: match de {
                Some(x) => x,
                None => content,
            },
            usage_example: us,
            sources: symbol_source(s),
        },
        None => DocResultView { summary: reply_headline(content), detailed: content, usage_example: None, sources: symbol_source(s) },
    }
}

fn text_or_null_exec(v: &JsonValue) -> (r: Option<Option<String>>)
    ensures
        match text_or_null(*v) {
            Some(Some(s)) => r matches Some(Some(x)) && x@ == s,
            Some(None) => r matches Some(None),
            None => r is None,
        },
{
    match v {
        JsonValue::Null => Some(None),
        JsonValue::Str(s) => Some(Some(s.clone())),
        _ => None,
    }
}

fn member_text_exec(v: &JsonValue, key: &str) -> (r: Option<Option<String>>)
    ensures
        match member_text(*v, key@) {
            Some(Some(s)) => r matches Some(Some(x)) && x@ == s,
            Some(None) => r matches Some(None),
            None => r is None,
        },
{
    match v.get(key) {
        Some(x) => text_or_null_exec(x),
        None => Some(None),
    }
}

fn reply_fields_exec(v: &JsonValue) -> (r: Option<(Option<String>, Option<String>, Option<String>)>)
    ensures
        match reply_fields(*v) {
            Some((a, b, c)) => r matches Some((x, y, z)) && opt_view(x) == a && opt_view(y) == b && opt_view(z) == c,
            None => r is None,
        },
{
    match v {
        JsonValue::Object(_) => {
            let a = member_text_exec(v, "summary");
            let b = member_text_exec(v, "detailed");
            let c = member_text_exec(v, "usage_example");
            match (a, b, c) {
                (Some(x), Some(y), Some(z)) => Some((x, y, z)),
                _ => None,
            }
        },
        JsonValue::Array(items) => {
            if items.len() == 3 {
                let a = text_or_null_exec(&items[0]);
                let b = text_or_null_exec(&items[1]);
                let c = text_or_null_exec(&items[2]);
                match (a, b, c) {
                    (Some(x), Some(y), Some(z)) => Some((x, y, z)),
                    _ => None,
                }
            } else {
                None
            }
        },
        _ => None,
    }
}

pub open spec fn opt_view(o: Option<String>) -> Option<Seq<char>> {
    match o {
        Some(s) => Some(s@),
        None => None,
    }
}

fn reply_headline_exec(content: &str) -> (r: String)
    ensures
        r@ == reply_headline(content@),
{
    let c = chars_of(content);
    let ls = lines_vec(&c);
    let l = if ls.len() > 0 {
        assert(views(ls@)[0] == ls@[0]@);
        crate::text::copy_vec(&ls[0])
    } else {
        crate::text::copy_vec(&c)
    };
    if l.len() > 200 {
        string_of(subvec(&l, 0, 200).as_slice())
    } else {
        string_of(l.as_slice())
    }
}

impl LlmDocGenerator {
    /// The documentation read from a model's reply, given its JSON part as
    /// parsed (`None` when that part is not JSON).
    pub fn parse_llm_response(&self, content: &str, parsed: Option<&JsonValue>, symbol: &Symbol) -> (r: LlmDocResult)
        ensures
            r@ == reply_view(content@, match parsed {
                Some(v) => Some(*v),
                None => None,
            }, *symbol),
    {
        let fields = match parsed {
            Some(v) => reply_fields_exec(v),
            None => None,
        };
        let r = match fields {
            Some((su, de, us)) => LlmDocResult {
                summary: match su {
                    Some(x) => x,
                    None => kind_and_name_exec(symbol),
                },
                detailed: match de {
                    Some(x) => x,
                    None => content.to_string(),
                },
                usage_example: us,
                sources: source_of(symbol),
            },
            None => LlmDocResult {
                summary: reply_headline_exec(content),
                detailed: content.to_string(),
                usage_example: None,
                sources: source_of(symbol),
            },
        };
        assert(r@.sources =~= symbol_source(*symbol));
        r
    }
}

// ---------------------------------------------------------------------------
// Documenting every public symbol
// ---------------------------------------------------------------------------

/// The symbols documented: public functions, types, traits, methods and components.
pub open spec fn is_documented(s: Symbol) -> bool {
    &&& s.visibility == Visibility::Public
    &&& (s.kind == SymbolKind::Function || s.kind == SymbolKind::Struct || s.kind == SymbolKind::Trait
        || s.kind == SymbolKind::Class || s.kind == SymbolKind::Interface || s.kind == SymbolKind::Enum
        || s.kind == SymbolKind::Method || s.kind == SymbolKind::Component)
}

/// The text of the file at `path`, the first entry for it, or nothing.
pub open spec fn source_for(files: Seq<(String, String)>, path: Seq<char>) -> Seq<char>
    decreases files.len(),
{
    if files.len() == 0 {
        Seq::empty()
    } else if files[0].0@ == path {
        files[0].1@
    } else {
        source_for(files.drop_first(), path)
    }
}

fn source_lookup<'a>(files: &'a [(String, String)], path: &str) -> (r: &'a str)
    ensures
        r@ == source_for(files@, path@),
{
    let pc = chars_of(path);
    let mut k: usize = 0;
    assert(files@.skip(0) =~= files@);
    while k < files.len()
        invariant
            k <= files@.len(),
            pc@ == path@,
            source_for(files@, path@) == source_for(files@.skip(k as int), path@),
        decreases files@.len() - k,
    {
        assert(files@.skip(k as int)[0] == files@[k as int]);
        if crate::text::eq_vec(&chars_of(files[k].0.as_str()), &pc) {
            return files[k].1.as_str();
        }
        assert(files@.skip(k as int).drop_first() =~= files@.skip(k + 1));
        k = k + 1;
    }
    assert(files@.skip(k as int) =~= Seq::<(String, String)>::empty());
    proof { reveal_strlit(""); }
    ""
}

/// The prompt built for a symbol: what `format_evidence_prompt` gives for the
/// symbol's evidence pack.
pub open spec fn symbol_prompt(s: Symbol, source: Seq<char>, g: GraphView, imports: Seq<char>) -> Seq<char> {
    let c = graph_context(g, symbol_key(s));
    "## Symbol: "@ + s.qualified_name@ + " ("@ + s.kind.spec_name() + ")\n"@
        + (match opt_str(s.signature) {
            Some(x) => "**Signature**: `"@ + x + "`\n"@,
            None => Seq::empty(),
        })
        + "**Visibility**: "@ + s.visibility.spec_debug_name() + "\n\n"@
        + (match s.doc {
            Some(d) => "### Existing Documentation\n"@ + d.raw@ + "\n\n"@,
            None => Seq::empty(),
        })
        + "### Source Code\n```\n"@ + snippet(source, s.span) + "\n```\n\n"@
        + section("### Implements\n"@, c.implements) + section("### Contains\n"@, c.contains)
        + section("### Used By\n"@, c.used_by) + section("### Handles Endpoints\n"@, c.handled_endpoints)
        + (if imports.len() == 0 {
            Seq::empty()
        } else {
            "### File Imports\n```\n"@ + imports + "\n```\n"@
        })
}

#[verifier::spinoff_prover]
#[verifier::rlimit(60)]
proof fn lemma_symbol_prompt(p: crate::evidence::EvidencePack, s: Symbol, source: Seq<char>, g: GraphView, imports: Seq<char>)
    requires
        pack_ok(p, s, source, g, imports),
    ensures
        prompt_text(p) == symbol_prompt(s, source, g, imports),
{
    let c = graph_context(g, symbol_key(s));
    assert(crate::evidence::prompt_heading(p) == "## Symbol: "@ + s.qualified_name@ + " ("@ + s.kind.spec_name() + ")\n"@);
    assert(crate::evidence::prompt_visibility(p) == "**Visibility**: "@ + s.visibility.spec_debug_name() + "\n\n"@);
    assert(crate::evidence::prompt_source(p) == "### Source Code\n```\n"@ + snippet(source, s.span) + "\n```\n\n"@);
    assert(crate::evidence::prompt_sections(p) == section("### Implements\n"@, c.implements) + section("### Contains\n"@, c.contains)
        + section("### Used By\n"@, c.used_by) + section("### Handles Endpoints\n"@, c.handled_endpoints));
    assert(crate::evidence::prompt_imports(p) == (if imports.len() == 0 {
        Seq::<char>::empty()
    } else {
        "### File Imports\n```\n"@ + imports + "\n```\n"@
    }));
    assert(crate::evidence::prompt_signature(p) == (match opt_str(s.signature) {
        Some(x) => "**Signature**: `"@ + x + "`\n"@,
        None => Seq::<char>::empty(),
    }));
    assert(crate::evidence::prompt_doc(p) == (match s.doc {
        Some(d) => "### Existing Documentation\n"@ + d.raw@ + "\n\n"@,
        None => Seq::<char>::empty(),
    }));
}

/// A cache entry as values.
pub struct EntryView {
    pub prompt_hash: Seq<char>,
    pub content_hash: Seq<char>,
    pub result: DocResultView,
    pub generated_at: Seq<char>,
}

pub open spec fn entry_view(e: CacheEntry) -> EntryView {
    EntryView { prompt_hash: e.prompt_hash@, content_hash: e.content_hash@, result: e.result@, generated_at: e.generated_at@ }
}

/// The cache as values.
pub open spec fn cache_view(m: Map<Seq<char>, CacheEntry>) -> Map<Seq<char>, EntryView> {
    Map::new(|k: Seq<char>| m.contains_key(k), |k: Seq<char>| entry_view(m[k]))
}

/// The documentation gathered so far, by symbol key, and the cache.
pub struct RunState {
    pub docs: Map<Seq<char>, DocResultView>,
    pub cache: Map<Seq<char>, EntryView>,
}

/// One symbol documented: the cached result when the cache holds one for the
/// symbol made from the same prompt; otherwise the symbol's own
/// documentation, which is also cached under its prompt, stamped `at`.
pub open spec fn doc_step(st: RunState, s: Symbol, files: Seq<(String, String)>, g: GraphView, at: Seq<char>) -> RunState {
    let key = symbol_key(s);
    let sh = sym_hash(s);
    let ph = sym_prompt_hash(s, files, g);
    if st.cache.contains_key(sh) && st.cache[sh].prompt_hash == ph {
        RunState { docs: st.docs.insert(key, st.cache[sh].result), cache: st.cache }
    } else {
        let fb = fallback_view(s);
        RunState {
            docs: st.docs.insert(key, fb),
            cache: st.cache.insert(sh, EntryView { prompt_hash: ph, content_hash: spec_text_hash(fb.summary), result: fb, generated_at: at }),
        }
    }
}

/// The symbols documented in order.
pub open spec fn doc_run(st: RunState, syms: Seq<Symbol>, files: Seq<(String, String)>, g: GraphView, at: Seq<char>) -> RunState
    decreases syms.len(),
{
    if syms.len() == 0 {
        st
    } else {
        let prev = doc_run(st, syms.drop_last(), files, g, at);
        if is_documented(syms.last()) {
            doc_step(prev, syms.last(), files, g, at)
        } else {
            prev
        }
    }
}

/// The documentation list as a map from key to result.
pub open spec fn docs_map(r: Seq<(String, LlmDocResult)>) -> Map<Seq<char>, DocResultView>
    decreases r.len(),
{
    if r.len() == 0 {
        Map::empty()
    } else {
        docs_map(r.drop_last()).insert(r.last().0@, r.last().1@)
    }
}

pub open spec fn doc_keys_distinct(r: Seq<(String, LlmDocResult)>) -> bool {
    forall|i: int, j: int| 0 <= i < j < r.len() ==> #[trigger] r[i].0@ != #[trigger] r[j].0@
}

proof fn lemma_docs_map_update(e: Seq<(String, LlmDocResult)>, i: int, k: String, v: LlmDocResult)
    requires
        doc_keys_distinct(e),
        0 <= i < e.len(),
        k@ == e[i].0@,
    ensures
        docs_map(e.update(i, (k, v))) == docs_map(e).insert(e[i].0@, v@),
    decreases e.len(),
{
    let e2 = e.update(i, (k, v));
    if i == e.len() - 1 {
        assert(e2.drop_last() =~= e.drop_last());
        assert forall|j: int| 0 <= j < e.drop_last().len() implies #[trigger] e.drop_last()[j].0@ != e[i].0@ by {
            assert(e.drop_last()[j] == e[j]);
        }
        lemma_docs_map_absent(e.drop_last(), e[i].0@);
        assert(docs_map(e2) =~= docs_map(e).insert(e[i].0@, v@));
    } else {
        assert(e2.drop_last() =~= e.drop_last().update(i, (k, v)));
        assert(e.drop_last()[i] == e[i]);
        lemma_docs_map_update(e.drop_last(), i, k, v);
        assert(e.last().0@ != e[i].0@);
        assert(docs_map(e2) =~= docs_map(e).insert(e[i].0@, v@));
    }
}

proof fn lemma_docs_map_absent(e: Seq<(String, LlmDocResult)>, k: Seq<char>)
    requires
        forall|i: int| 0 <= i < e.len() ==> #[trigger] e[i].0@ != k,
    ensures
        !docs_map(e).contains_key(k),
    decreases e.len(),
{
    if e.len() > 0 {
        assert forall|i: int| 0 <= i < e.drop_last().len() implies #[trigger] e.drop_last()[i].0@ != k by {
            assert(e.drop_last()[i] == e[i]);
        }
        lemma_docs_map_absent(e.drop_last(), k);
    }
}

/// Puts a result under a key, replacing the one there.
fn set_doc(results: &mut Vec<(String, LlmDocResult)>, key: String, v: LlmDocResult)
    requires
        doc_keys_distinct(old(results)@),
    ensures
        doc_keys_distinct(final(results)@),
        docs_map(final(results)@) == docs_map(old(results)@).insert(key@, v@),
{
    let ghost old_e = results@;
    let ghost kv = key;
    let ghost vv = v;
    let kc = chars_of(key.as_str());
    let mut k: usize = 0;
    while k < results.len()
        invariant
            k <= results@.len(),
            kc@ == key@,
            results@ == old_e,
            old_e == old(results)@,
            kv == key,
            vv == v,
            doc_keys_distinct(old_e),
            forall|j: int| 0 <= j < k ==> #[trigger] old_e[j].0@ != key@,
        decreases results@.len() - k,
    {
        let here = chars_of(results[k].0.as_str());
        if crate::text::eq_vec(&here, &kc) {
            assert(old_e[k as int].0@ == key@);
            let item = (key, v);
            let ghost it = item;
            assert(it.0@ == kv@ && it.1@ == vv@);
            proof { lemma_docs_map_update(old_e, k as int, it.0, it.1); }
            results.set(k, item);
            assert(results@ == old_e.update(k as int, it));
            assert(doc_keys_distinct(results@)) by {
                assert forall|i: int, j: int| 0 <= i < j < results@.len() implies
                    #[trigger] results@[i].0@ != #[trigger] results@[j].0@ by {
                    if i != k && j != k {
                        assert(results@[i] == old_e[i]);
                        assert(results@[j] == old_e[j]);
                    } else if i == k {
                        assert(results@[j] == old_e[j]);
                        assert(old_e[i].0@ != old_e[j].0@);
                    } else {
                        assert(results@[i] == old_e[i]);
                        assert(old_e[i].0@ != old_e[j].0@);
                    }
                }
            }
            return;
        }
        k = k + 1;
    }
    proof { lemma_docs_map_absent(old_e, kv@); }
    results.push((key, v));
    assert(results@ == old_e.push((kv, vv)));
    assert(results@.drop_last() =~= old_e);
    assert(docs_map(results@) =~= docs_map(old_e).insert(kv@, vv@));
    assert(doc_keys_distinct(results@)) by {
        assert forall|i: int, j: int| 0 <= i < j < results@.len() implies
            #[trigger] results@[i].0@ != #[trigger] results@[j].0@ by {
            assert(results@[i] == old_e[i]);
            if j < old_e.len() {
                assert(results@[j] == old_e[j]);
            } else {
                assert(results@[j] == (kv, vv));
            }
        }
    }
}

/// Whether every documented symbol's lines can be cut from its file's text.
pub open spec fn snippets_ok(syms: Seq<Symbol>, files: Seq<(String, String)>) -> bool {
    forall|i: int| 0 <= i < syms.len() && is_documented(#[trigger] syms[i])
        ==> snippet_ok(source_for(files, syms[i].file@), syms[i].span)
}

impl LlmDocGenerator {
    /// Documents one symbol, through the cache.
    fn document_symbol(
        &self,
        s: &Symbol,
        graph: &CodeGraph,
        file_contents: &[(String, String)],
        cache: &mut CacheStore,
        at: &str,
        results: &mut Vec<(String, LlmDocResult)>,
    )
        requires
            old(cache).wf(),
            graph@.wf(),
            doc_keys_distinct(old(results)@),
            snippet_ok(source_for(file_contents@, s.file@), s.span),
        ensures
            final(cache).wf(),
            final(cache).version == old(cache).version,
            doc_keys_distinct(final(results)@),
            ({
                let st = doc_step(RunState { docs: docs_map(old(results)@), cache: cache_view(old(cache).spec_map()) }, *s, file_contents@, graph@, at@);
                &&& docs_map(final(results)@) == st.docs
                &&& cache_view(final(cache).spec_map()) == st.cache
            }),
    {
        let source = source_lookup(file_contents, s.file.as_str());
        let imports = extract_imports(source);
        let pack = build_evidence_pack(s, source, graph, imports.as_str());
        let prompt = format_evidence_prompt(&pack);
        proof {
            lemma_symbol_prompt(pack, *s, source@, graph@, imports@);
            reveal(sym_prompt_hash);
        }
        let ph = compute_hash(prompt.as_str());
        let key = s.id.stable_key();
        let sh = compute_hash(key.as_str());
        let ghost m0 = cache.spec_map();
        let ghost cv0 = cache_view(m0);
        assert(cv0.contains_key(sh@) == m0.contains_key(sh@));
        assert(m0.contains_key(sh@) ==> cv0[sh@].prompt_hash == m0[sh@].prompt_hash@);
        match cache.lookup(sh.as_str(), ph.as_str()) {
            Some(c) => {
                let d = dup_result(c);
                set_doc(results, key, d);
            },
            None => {
                let fb = self.generate_fallback(s);
                let ch = compute_hash(fb.summary.as_str());
                let fb2 = dup_result(&fb);
                let stamp = at.to_string();
                cache.insert_at(sh, ph, ch, fb2, stamp);
                assert(cache_view(cache.spec_map()) =~= cv0.insert(sh@, EntryView {
                    prompt_hash: ph@,
                    content_hash: ch@,
                    result: fallback_view(*s),
                    generated_at: at@,
                }));
                set_doc(results, key, fb);
            },
        }
    }

    /// Documents every public function, type, trait, method and component,
    /// reusing cached results made from the same prompt and caching new ones
    /// stamped `at`. The result holds one entry per symbol key.
    pub fn generate_all_at(
        &self,
        ir: &RepoIR,
        graph: &CodeGraph,
        file_contents: &[(String, String)],
        cache: &mut CacheStore,
        at: &str,
    ) -> (r: Vec<(String, LlmDocResult)>)
        requires
            old(cache).wf(),
            graph@.wf(),
            snippets_ok(ir.symbols@, file_contents@),
        ensures
            final(cache).wf(),
            final(cache).version == old(cache).version,
            doc_keys_distinct(r@),
            ({
                let st = doc_run(RunState { docs: Map::empty(), cache: cache_view(old(cache).spec_map()) }, ir.symbols@, file_contents@, graph@, at@);
                &&& docs_map(r@) == st.docs
                &&& cache_view(final(cache).spec_map()) == st.cache
            }),
    {
        let ghost init = RunState { docs: Map::empty(), cache: cache_view(cache.spec_map()) };
        let ghost v0 = cache.version;
        let mut results: Vec<(String, LlmDocResult)> = Vec::new();
        assert(docs_map(results@) =~= Map::<Seq<char>, DocResultView>::empty());
        let mut k: usize = 0;
        while k < ir.symbols.len()
            invariant
                k <= ir.symbols@.len(),
                cache.wf(),
                cache.version == v0,
                graph@.wf(),
                snippets_ok(ir.symbols@, file_contents@),
                doc_keys_distinct(results@),
                ({
                    let st = doc_run(init, ir.symbols@.take(k as int), file_contents@, graph@, at@);
                    &&& docs_map(results@) == st.docs
                    &&& cache_view(cache.spec_map()) == st.cache
                }),
            decreases ir.symbols@.len() - k,
        {
            let s = &ir.symbols[k];
            assert(ir.symbols@.take(k + 1).drop_last() =~= ir.symbols@.take(k as int));
            assert(ir.symbols@.take(k + 1).last() == *s);
            let documented = matches!(s.visibility, Visibility::Public) && matches!(s.kind,
                SymbolKind::Function | SymbolKind::Struct | SymbolKind::Trait | SymbolKind::Class
                | SymbolKind::Interface | SymbolKind::Enum | SymbolKind::Method | SymbolKind::Component);
            if documented {
                assert(is_documented(ir.symbols@[k as int]));
                self.document_symbol(s, graph, file_contents, cache, at, &mut results);
            }
            k = k + 1;
        }
        assert(ir.symbols@.take(k as int) =~= ir.symbols@);
        results
    }

    /// Documents every public symbol, caching new results stamped with the
    /// current time.
    pub fn generate_all(
        &self,
        ir: &RepoIR,
        graph: &CodeGraph,
        file_contents: &[(String, String)],
        cache: &mut CacheStore,
    ) -> (r: Vec<(String, LlmDocResult)>)
        requires
            old(cache).wf(),
            graph@.wf(),
            snippets_ok(ir.symbols@, file_contents@),
        ensures
            final(cache).wf(),
            final(cache).version == old(cache).version,
            doc_keys_distinct(r@),
            exists|at: Seq<char>| {
                let st = #[trigger] doc_run(RunState { docs: Map::empty(), cache: cache_view(old(cache).spec_map()) }, ir.symbols@, file_contents@, graph@, at);
                &&& crate::cache::utc_stamp_shape(at)
                &&& docs_map(r@) == st.docs
                &&& cache_view(final(cache).spec_map()) == st.cache
            },
    {
        let now = now_rfc3339();
        self.generate_all_at(ir, graph, file_contents, cache, now.as_str())
    }
}

/// Whether the lines of a span can be cut from a source (see `snippet_ok`).
pub fn snippet_fits(source: &str, span: &crate::ir::Span) -> (r: bool)
    ensures
        r == snippet_ok(source@, *span),
{
    let ls = lines_vec(&chars_of(source));
    let start: usize = if span.start_line == 0 { 0 } else { span.start_line - 1 };
    if start > usize::MAX - 200 {
        return false;
    }
    let e: usize = if span.end_line < ls.len() { span.end_line } else { ls.len() };
    let end: usize = if e < start + 200 { e } else { start + 200 };
    assert(views(ls@).len() == ls@.len());
    start <= end
}

/// Whether every documented symbol's lines can be cut from its file's text.
pub fn snippets_fit(symbols: &[Symbol], file_contents: &[(String, String)]) -> (r: bool)
    ensures
        r == snippets_ok(symbols@, file_contents@),
{
    let mut k: usize = 0;
    while k < symbols.len()
        invariant
            k <= symbols@.len(),
            forall|i: int| 0 <= i < k && is_documented(#[trigger] symbols@[i])
                ==> snippet_ok(source_for(file_contents@, symbols@[i].file@), symbols@[i].span),
        decreases symbols@.len() - k,
    {
        let s = &symbols[k];
        let documented = matches!(s.visibility, Visibility::Public) && matches!(s.kind,
            SymbolKind::Function | SymbolKind::Struct | SymbolKind::Trait | SymbolKind::Class
            | SymbolKind::Interface | SymbolKind::Enum | SymbolKind::Method | SymbolKind::Component);
        if documented {
            let source = source_lookup(file_contents, s.file.as_str());
            if !snippet_fits(source, &s.span) {
                assert(is_documented(symbols@[k as int]));
                return false;
            }
        }
        k = k + 1;
    }
    true
}

// ---------------------------------------------------------------------------
// Laws of the cached run
// ---------------------------------------------------------------------------

/// The cache key of a symbol: the hash of its stable key.
pub open spec fn sym_hash(s: Symbol) -> Seq<char> {
    spec_text_hash(symbol_key(s))
}

/// The hash of the prompt a symbol is documented from.
#[verifier::opaque]
pub open spec fn sym_prompt_hash(s: Symbol, files: Seq<(String, String)>, g: GraphView) -> Seq<char> {
    let source = source_for(files, s.file@);
    spec_text_hash(symbol_prompt(s, source, g, import_text(source)))
}

/// No two documented symbols share a cache key.
pub open spec fn documented_hashes_distinct(syms: Seq<Symbol>) -> bool {
    forall|i: int, j: int| 0 <= i < syms.len() && 0 <= j < syms.len() && i != j && is_documented(#[trigger] syms[i])
        && is_documented(#[trigger] syms[j]) ==> sym_hash(syms[i]) != sym_hash(syms[j])
}

/// After documenting the first `k` symbols, each documented one has its
/// prompt's entry in the cache, holding the documentation given for it, and
/// only those symbols have documentation.
pub open spec fn run_holds(st: RunState, syms: Seq<Symbol>, files: Seq<(String, String)>, g: GraphView, k: int) -> bool {
    &&& forall|i: int| 0 <= i < k && is_documented(#[trigger] syms[i]) ==> {
        &&& st.cache.contains_key(sym_hash(syms[i]))
        &&& st.cache[sym_hash(syms[i])].prompt_hash == sym_prompt_hash(syms[i], files, g)
        &&& st.docs.contains_key(symbol_key(syms[i]))
        &&& st.cache[sym_hash(syms[i])].result == st.docs[symbol_key(syms[i])]
    }
    &&& forall|key: Seq<char>| #[trigger] st.docs.contains_key(key) ==> exists|i: int| 0 <= i < k && is_documented(#[trigger] syms[i]) && symbol_key(syms[i]) == key
}

proof fn lemma_run_holds(c0: Map<Seq<char>, EntryView>, syms: Seq<Symbol>, files: Seq<(String, String)>, g: GraphView, at: Seq<char>, k: int)
    requires
        0 <= k <= syms.len(),
        documented_hashes_distinct(syms),
    ensures
        run_holds(doc_run(RunState { docs: Map::empty(), cache: c0 }, syms.take(k), files, g, at), syms, files, g, k),
    decreases k,
{
    let init = RunState { docs: Map::empty(), cache: c0 };
    if k == 0 {
        let st = doc_run(init, syms.take(0), files, g, at);
        assert(st == init);
    } else {
        lemma_run_holds(c0, syms, files, g, at, k - 1);
        assert(syms.take(k).drop_last() =~= syms.take(k - 1));
        assert(syms.take(k).last() == syms[k - 1]);
        let prev = doc_run(init, syms.take(k - 1), files, g, at);
        let st = doc_run(init, syms.take(k), files, g, at);
        let s = syms[k - 1];
        if is_documented(s) {
            assert(st == doc_step(prev, s, files, g, at));
            assert forall|i: int| 0 <= i < k && is_documented(#[trigger] syms[i]) implies {
                &&& st.cache.contains_key(sym_hash(syms[i]))
                &&& st.cache[sym_hash(syms[i])].prompt_hash == sym_prompt_hash(syms[i], files, g)
                &&& st.docs.contains_key(symbol_key(syms[i]))
                &&& st.cache[sym_hash(syms[i])].result == st.docs[symbol_key(syms[i])]
            } by {
                if i < k - 1 {
                    assert(sym_hash(syms[i]) != sym_hash(syms[k - 1]));
                    assert(symbol_key(syms[i]) != symbol_key(s));
                }
            }
            assert forall|key: Seq<char>| #[trigger] st.docs.contains_key(key) implies exists|i: int| 0 <= i < k && is_documented(#[trigger] syms[i]) && symbol_key(syms[i]) == key by {
                if key != symbol_key(s) {
                    assert(prev.docs.contains_key(key));
                    let i = choose|i: int| 0 <= i < k - 1 && is_documented(#[trigger] syms[i]) && symbol_key(syms[i]) == key;
                    assert(0 <= i < k && is_documented(syms[i]) && symbol_key(syms[i]) == key);
                } else {
                    assert(is_documented(syms[k - 1]) && symbol_key(syms[k - 1]) == key);
                }
            }
        } else {
            assert(st == prev);
            assert forall|key: Seq<char>| #[trigger] st.docs.contains_key(key) implies exists|i: int| 0 <= i < k && is_documented(#[trigger] syms[i]) && symbol_key(syms[i]) == key by {
                let i = choose|i: int| 0 <= i < k - 1 && is_documented(#[trigger] syms[i]) && symbol_key(syms[i]) == key;
                assert(0 <= i < k && is_documented(syms[i]) && symbol_key(syms[i]) == key);
            }
        }
    }
}

/// The documentation `docs` holds for the documented symbols among the first `k`.
pub open spec fn docs_upto(docs: Map<Seq<char>, DocResultView>, syms: Seq<Symbol>, k: int) -> Map<Seq<char>, DocResultView> {
    Map::new(
        |key: Seq<char>| exists|i: int| 0 <= i < k && is_documented(#[trigger] syms[i]) && symbol_key(syms[i]) == key,
        |key: Seq<char>| docs[key],
    )
}

proof fn lemma_second_run(st1: RunState, syms: Seq<Symbol>, files: Seq<(String, String)>, g: GraphView, at: Seq<char>, k: int)
    requires
        0 <= k <= syms.len(),
        run_holds(st1, syms, files, g, syms.len() as int),
    ensures
        doc_run(RunState { docs: Map::empty(), cache: st1.cache }, syms.take(k), files, g, at)
            == (RunState { docs: docs_upto(st1.docs, syms, k), cache: st1.cache }),
    decreases k,
{
    let init = RunState { docs: Map::empty(), cache: st1.cache };
    if k == 0 {
        assert(docs_upto(st1.docs, syms, 0) =~= Map::<Seq<char>, DocResultView>::empty());
        assert(doc_run(init, syms.take(0), files, g, at) == init);
    } else {
        lemma_second_run(st1, syms, files, g, at, k - 1);
        assert(syms.take(k).drop_last() =~= syms.take(k - 1));
        assert(syms.take(k).last() == syms[k - 1]);
        let s = syms[k - 1];
        let prev = doc_run(init, syms.take(k - 1), files, g, at);
        if is_documented(s) {
            assert(st1.cache.contains_key(sym_hash(s)));
            assert(st1.cache[sym_hash(s)].prompt_hash == sym_prompt_hash(s, files, g));
            let st = doc_step(prev, s, files, g, at);
            assert(st.docs =~= docs_upto(st1.docs, syms, k)) by {
                assert forall|key: Seq<char>| #[trigger] st.docs.contains_key(key) <==> docs_upto(st1.docs, syms, k).contains_key(key) by {
                    if key == symbol_key(s) {
                        assert(is_documented(syms[k - 1]) && symbol_key(syms[k - 1]) == key);
                    } else if docs_upto(st1.docs, syms, k).contains_key(key) {
                        let i = choose|i: int| 0 <= i < k && is_documented(#[trigger] syms[i]) && symbol_key(syms[i]) == key;
                        assert(i < k - 1);
                        assert(docs_upto(st1.docs, syms, k - 1).contains_key(key));
                    } else if st.docs.contains_key(key) {
                        assert(prev.docs.contains_key(key));
                        let i = choose|i: int| 0 <= i < k - 1 && is_documented(#[trigger] syms[i]) && symbol_key(syms[i]) == key;
                        assert(0 <= i < k && is_documented(syms[i]) && symbol_key(syms[i]) == key);
                    }
                }
            }
        } else {
            assert(docs_upto(st1.docs, syms, k) =~= docs_upto(st1.docs, syms, k - 1)) by {
                assert forall|key: Seq<char>| #[trigger] docs_upto(st1.docs, syms, k).contains_key(key) implies docs_upto(st1.docs, syms, k - 1).contains_key(key) by {
                    let i = choose|i: int| 0 <= i < k && is_documented(#[trigger] syms[i]) && symbol_key(syms[i]) == key;
                    assert(i != k - 1);
                    assert(0 <= i < k - 1 && is_documented(syms[i]) && symbol_key(syms[i]) == key);
                }
            }
        }
    }
}

/// A second documentation run over the same symbols, files and graph, on
/// the cache the first run left, reuses every cached result: it gives the
/// same documentation and leaves the cache as it was, whatever time it is
/// stamped with. (Two documented symbols whose keys hash alike would take
/// turns in one cache entry, so they are left out.)
pub proof fn law_second_run_reuses_cache(
    syms: Seq<Symbol>,
    files: Seq<(String, String)>,
    g: GraphView,
    c0: Map<Seq<char>, EntryView>,
    at1: Seq<char>,
    at2: Seq<char>,
)
    requires
        documented_hashes_distinct(syms),
    ensures
        ({
            let st1 = doc_run(RunState { docs: Map::empty(), cache: c0 }, syms, files, g, at1);
            let st2 = doc_run(RunState { docs: Map::empty(), cache: st1.cache }, syms, files, g, at2);
            st2.docs == st1.docs && st2.cache == st1.cache
        }),
{
    let n = syms.len() as int;
    assert(syms.take(n) =~= syms);
    lemma_run_holds(c0, syms, files, g, at1, n);
    let st1 = doc_run(RunState { docs: Map::empty(), cache: c0 }, syms, files, g, at1);
    lemma_second_run(st1, syms, files, g, at2, n);
    assert(docs_upto(st1.docs, syms, n) =~= st1.docs) by {
        assert forall|key: Seq<char>| #[trigger] st1.docs.contains_key(key) <==> docs_upto(st1.docs, syms, n).contains_key(key) by {
            if docs_upto(st1.docs, syms, n).contains_key(key) {
                let i = choose|i: int| 0 <= i < n && is_documented(#[trigger] syms[i]) && symbol_key(syms[i]) == key;
                assert(st1.docs.contains_key(symbol_key(syms[i])));
            }
        }
    }
}


// ---------------------------------------------------------------------------
// Asking a model
// ---------------------------------------------------------------------------

/// The instructions sent before each symbol's prompt.
pub const SYSTEM_PROMPT: &'static str = "You are a technical documentation generator. Given a code symbol with its source code, documentation comments, and graph context, generate clear and concise documentation.\n\nRespond in this exact JSON format:\n{\"summary\": \"one-line summary\", \"detailed\": \"detailed markdown description\", \"usage_example\": \"optional code example or null\"}";

pub const USER_PREFIX: &'static str = "Generate documentation for the following symbol:\n\n";

/// What the asking of a model for one symbol's documentation does next.
#[derive(Debug)]
pub enum LlmStep {
    /// Send the request, after waiting this many milliseconds.
    Send { wait_ms: u64 },
    /// Every attempt failed: the error to return.
    GiveUp(WikiGenError),
}

/// The wait before attempt `attempt` (from 0): none before the first, else
/// the configured backoff times two to the attempt's number.
pub open spec fn retry_wait(backoff_ms: u64, attempt: nat) -> int {
    if attempt == 0 { 0 } else { backoff_ms * vstd::arithmetic::power2::pow2(attempt) }
}

/// A backoff that the waits before the attempts of a configuration can hold.
pub open spec fn waits_fit(backoff_ms: u64, retry_max: nat) -> bool {
    forall|a: nat| 0 < a < retry_max ==> a < 64 && #[trigger] retry_wait(backoff_ms, a) <= u64::MAX
}

/// The message of a run whose attempts all failed.
pub open spec fn exhausted_message(retry_max: nat, name: Seq<char>, last_error: Option<Seq<char>>) -> Seq<char> {
    "All "@ + decimal(retry_max) + " retries exhausted for "@ + name + ": "@ + match last_error {
        Some(e) => e,
        None => "unknown"@,
    }
}

proof fn lemma_pow2_shift(attempt: u64)
    requires
        attempt < 64,
    ensures
        (1u64 << attempt) == vstd::arithmetic::power2::pow2(attempt as nat),
{
    vstd::bits::lemma_u64_pow2_no_overflow(attempt as nat);
    vstd::bits::lemma_u64_shl_is_mul(1u64, attempt);
}

/// From the second attempt on, each wait is twice the one before.
pub proof fn law_backoff_doubles(backoff_ms: u64, attempt: nat)
    requires
        attempt >= 1,
    ensures
        retry_wait(backoff_ms, attempt + 1) == 2 * retry_wait(backoff_ms, attempt),
{
    vstd::arithmetic::power2::lemma_pow2_unfold(attempt + 1);
    let p = vstd::arithmetic::power2::pow2(attempt);
    assert(backoff_ms * (2 * p) == 2 * (backoff_ms * p)) by (nonlinear_arith);
}


impl LlmDocGenerator {
    /// The messages of the request for one symbol, as (role, content) pairs:
    /// the system instructions, then the prompt.
    pub fn chat_messages(&self, prompt: &str) -> (r: Vec<(String, String)>)
        ensures
            r@.len() == 2,
            r@[0].0@ == "system"@,
            r@[0].1@ == SYSTEM_PROMPT@,
            r@[1].0@ == "user"@,
            r@[1].1@ == USER_PREFIX@ + prompt@,
    {
        let mut user = chars_of(USER_PREFIX);
        append_str(&mut user, prompt);
        let mut out: Vec<(String, String)> = Vec::new();
        out.push(("system".to_string(), SYSTEM_PROMPT.to_string()));
        out.push(("user".to_string(), string_of(user.as_slice())));
        out
    }

    /// The step before attempt `attempt` (from 0) for the symbol `name`,
    /// given the message of the last failure: an attempt while attempts are
    /// left, else the error.
    pub fn retry_step(&self, attempt: usize, name: &str, last_error: Option<&str>) -> (r: LlmStep)
        requires
            waits_fit(self.spec_config().retry_backoff_ms, self.spec_config().retry_max as nat),
        ensures
            attempt < self.spec_config().retry_max ==> (r matches LlmStep::Send { wait_ms } && wait_ms
                == retry_wait(self.spec_config().retry_backoff_ms, attempt as nat)),
            attempt >= self.spec_config().retry_max ==> (r matches LlmStep::GiveUp(WikiGenError::Llm(m)) && m@
                == exhausted_message(
                self.spec_config().retry_max as nat,
                name@,
                match last_error {
                    Some(e) => Some(e@),
                    None => None,
                },
            )),
    {
        let retry_max = self.config.retry_max;
        if attempt < retry_max {
            if attempt == 0 {
                LlmStep::Send { wait_ms: 0 }
            } else {
                let backoff = self.config.retry_backoff_ms;
                proof {
                    assert(retry_wait(backoff, attempt as nat) <= u64::MAX && attempt < 64);
                }
                let shift = attempt as u64;
                proof {
                    lemma_pow2_shift(shift);
                }
                let factor: u64 = 1u64 << shift;
                LlmStep::Send { wait_ms: backoff * factor }
            }
        } else {
            let mut m = chars_of("All ");
            append_vec(&mut m, &decimal_vec(retry_max));
            append_str(&mut m, " retries exhausted for ");
            append_str(&mut m, name);
            append_str(&mut m, ": ");
            match last_error {
                Some(e) => append_str(&mut m, e),
                None => append_str(&mut m, "unknown"),
            }
            LlmStep::GiveUp(WikiGenError::Llm(string_of(m.as_slice())))
        }
    }
}

} // verus!
