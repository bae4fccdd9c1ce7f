//! The Vue single-file-component parser: the file is split into its
//! `<template>`, `<script>` and `<style>` sections, the script is parsed as
//! TypeScript, and the component itself becomes a symbol that holds them.

use vstd::prelude::*;

use crate::error::{WikiGenError, WikiGenResult};
use crate::hashing::{compute_file_hash, hex_lower, sha256_digest};
use crate::ir::{
    annotation_views, diagnostic_views, id_views, lemma_symbol_views_push, reference_views, strs,
    symbol_views, Annotation, AnnotationView, DiagSeverity, Diagnostic, DiagnosticView, FileIR,
    Language, ParseStatus, Reference, ReferenceView, Span, Symbol, SymbolId, SymbolIdView,
    SymbolKind, SymbolView, Visibility,
};
use crate::parser::syntax::SyntaxError;
use crate::parser::typescript::{parse_typescript_section_checked, section_outcome};
use crate::parser::ParseOutput;
use crate::paths::{file_stem, file_stem_vec};
use crate::text::{
    append_str, append_vec, chars_of, contains, contains_vec, ends_with, ends_with_vec, lines,
    lines_vec, starts_with, starts_with_vec, string_of, trim, trim_vec, utf8_bytes, utf8_len,
    utf8_len_exec, utf8_str, utf8_str_or_message, views,
};

verus! {

/// Parses Vue single-file components.
pub struct VueSfcParser {
    _private: (),
}

#[derive(Debug, Clone, Copy, PartialEq, Eq, Structural)]
pub enum SectionLang {
    TypeScript,
    Html,
    Css,
}

/// One section of a component file: the text between an opening tag line
/// and its closing tag line.
#[derive(Debug)]
pub struct SfcSection {
    pub tag: String,
    pub content: String,
    /// Byte offset of the content in the file.
    pub byte_offset: usize,
    /// Byte offset where the content ends.
    pub content_end: usize,
    /// One-based line of the opening tag.
    pub line_offset: usize,
    pub lang: SectionLang,
}

pub struct SectionView {
    pub tag: Seq<char>,
    pub content: Seq<char>,
    pub byte_offset: int,
    pub content_end: int,
    pub line_offset: int,
    pub lang: SectionLang,
}

impl View for SfcSection {
    type V = SectionView;

    open spec fn view(&self) -> SectionView {
        SectionView {
            tag: self.tag@,
            content: self.content@,
            byte_offset: self.byte_offset as int,
            content_end: self.content_end as int,
            line_offset: self.line_offset as int,
            lang: self.lang,
        }
    }
}

pub open spec fn section_views(v: Seq<SfcSection>) -> Seq<SectionView> {
    Seq::new(v.len(), |i: int| v[i]@)
}

// ---------------------------------------------------------------------------
// Sections
// ---------------------------------------------------------------------------

/// The section a trimmed line opens: `<script`, `<template` or `<style` with a `>` on the line.
pub open spec fn opening_tag(line: Seq<char>) -> Option<Seq<char>> {
    let closes = contains(line, ">"@) || ends_with(line, ">"@);
    if starts_with(line, "<script"@) && closes {
        Some("script"@)
    } else if starts_with(line, "<template"@) && closes {
        Some("template"@)
    } else if starts_with(line, "<style"@) && closes {
        Some("style"@)
    } else {
        None
    }
}

pub open spec fn section_lang(tag: Seq<char>) -> SectionLang {
    if tag == "script"@ {
        SectionLang::TypeScript
    } else if tag == "template"@ {
        SectionLang::Html
    } else {
        SectionLang::Css
    }
}

/// An open section: its tag, the line it opened on and where its content starts.
pub struct OpenTag {
    pub tag: Seq<char>,
    pub line: int,
    pub content_start: int,
}

/// The sections closed from line `i` on, where `pos` is the byte position of
/// line `i` counted as the lengths of the lines before it plus one byte each,
/// and `cur` the open section. `None` where a content cut falls inside a
/// character or is reversed, or a position passes `usize::MAX`.
pub open spec fn sections_from(b: Seq<u8>, ls: Seq<Seq<char>>, i: int, pos: int, cur: Option<OpenTag>) -> Option<Seq<SectionView>>
    decreases ls.len() - i,
{
    if i < 0 || i >= ls.len() {
        Some(Seq::empty())
    } else {
        let line = ls[i];
        let tr = trim(line);
        let npos = pos + utf8_bytes(line) + 1;
        if npos > usize::MAX {
            None
        } else {
            match opening_tag(tr) {
                Some(tag) => sections_from(b, ls, i + 1, npos, Some(OpenTag { tag, line: i, content_start: npos })),
                None => match cur {
                    Some(o) => if starts_with(tr, "</"@ + o.tag + ">"@) {
                        let end = if pos < b.len() { pos } else { b.len() as int };
                        if o.content_start <= end && vstd::utf8::valid_utf8(b.subrange(o.content_start, end)) {
                            match sections_from(b, ls, i + 1, npos, None) {
                                Some(rest) => Some(seq![SectionView {
                                    tag: o.tag,
                                    content: vstd::utf8::decode_utf8(b.subrange(o.content_start, end)),
                                    byte_offset: o.content_start,
                                    content_end: end,
                                    line_offset: o.line + 1,
                                    lang: section_lang(o.tag),
                                }] + rest),
                                None => None,
                            }
                        } else {
                            None
                        }
                    } else {
                        sections_from(b, ls, i + 1, npos, cur)
                    },
                    None => sections_from(b, ls, i + 1, npos, None),
                },
            }
        }
    }
}

/// The sections of a component file given as UTF-8 bytes.
pub open spec fn split_sections(b: Seq<u8>) -> Option<Seq<SectionView>> {
    sections_from(b, lines(vstd::utf8::decode_utf8(b)), 0, 0, None)
}

// ---------------------------------------------------------------------------
// Scripts
// ---------------------------------------------------------------------------

/// What the script sections give together.
pub struct Scripts {
    pub symbols: Seq<SymbolView>,
    pub references: Seq<ReferenceView>,
    pub diagnostics: Seq<DiagnosticView>,
    pub partial: bool,
}

/// The message of the error a failed script section reports.
pub open spec fn section_error_message(err: SyntaxError, path: Seq<char>) -> Seq<char> {
    "Parse error in "@ + path + ": "@ + match err {
        SyntaxError::Language(m) => "Failed to set "@ + "TypeScript"@ + " language: "@ + m@,
        SyntaxError::NoTree => "Tree-sitter parse returned None"@,
    }
}

/// The warning a failed script section leaves.
pub open spec fn section_warning(err: SyntaxError, path: Seq<char>) -> DiagnosticView {
    DiagnosticView {
        file: path,
        severity: DiagSeverity::Warning,
        message: "Vue <script> parse failed: "@ + section_error_message(err, path),
        span: None,
        fallback: None,
    }
}

/// What the script sections from `k` on give; `None` where a section's
/// parse cannot finish.
pub open spec fn scripts_from(b: Seq<u8>, path: Seq<char>, secs: Seq<SectionView>, k: int) -> Option<Scripts>
    decreases secs.len() - k,
{
    if k < 0 || k >= secs.len() {
        Some(Scripts { symbols: Seq::empty(), references: Seq::empty(), diagnostics: Seq::empty(), partial: false })
    } else {
        let s = secs[k];
        let rest = scripts_from(b, path, secs, k + 1);
        if s.lang == SectionLang::TypeScript {
            match (section_outcome(b.subrange(s.byte_offset, s.content_end), path, s.byte_offset as usize, s.line_offset as usize), rest) {
                (Some(Ok(c)), Some(r)) => Some(Scripts {
                    symbols: c.symbols + r.symbols,
                    references: c.references + r.references,
                    diagnostics: r.diagnostics,
                    partial: r.partial,
                }),
                (Some(Err(err)), Some(r)) => Some(Scripts {
                    symbols: r.symbols,
                    references: r.references,
                    diagnostics: seq![section_warning(err, path)] + r.diagnostics,
                    partial: true,
                }),
                _ => None,
            }
        } else {
            rest
        }
    }
}

// ---------------------------------------------------------------------------
// The component
// ---------------------------------------------------------------------------

/// The component's name: the file stem.
pub open spec fn component_name(path: Seq<char>) -> Seq<char> {
    match file_stem(path) {
        Some(n) => n,
        None => "UnknownComponent"@,
    }
}

/// The component symbol: the whole file, holding the script's symbols.
pub open spec fn component_symbol(path: Seq<char>, len: usize, line_count: nat, children: Seq<SymbolIdView>) -> SymbolView {
    let q = path + ":"@ + component_name(path);
    SymbolView {
        id: SymbolIdView { file_path: path, start_byte: 0, end_byte: len, kind: SymbolKind::Component, qualified_name: q },
        kind: SymbolKind::Component,
        qualified_name: q,
        visibility: Visibility::Public,
        file: path,
        span: Span { start_byte: 0, end_byte: len, start_line: 1, end_line: line_count as usize },
        signature: Some("<"@ + component_name(path) + ">"@),
        doc: None,
        parent: None,
        children,
        annotations: Seq::empty(),
        type_params: Seq::empty(),
    }
}

/// The component first, then the script's symbols with the component as parent.
pub open spec fn vue_symbols(comp: SymbolView, syms: Seq<SymbolView>) -> Seq<SymbolView> {
    seq![comp] + Seq::new(syms.len(), |k: int| SymbolView { parent: Some(comp.id), ..syms[k] })
}

/// Whether parsing a component file finishes: its sections can be cut and
/// its scripts parsed.
pub open spec fn vue_finishes(source: Seq<u8>, path: Seq<char>) -> bool {
    vstd::utf8::valid_utf8(source) ==> (split_sections(source) matches Some(secs) && scripts_from(source, path, secs, 0) is Some)
}

/// What the Vue parser returns for a component file.
pub open spec fn vue_result_ok(r: WikiGenResult<ParseOutput>, source: Seq<u8>, path: Seq<char>) -> bool {
    if !vstd::utf8::valid_utf8(source) {
        r matches Err(WikiGenError::Parse { file, message }) && file@ == path && starts_with(message@, "Invalid UTF-8: "@)
    } else {
        split_sections(source) matches Some(secs) && scripts_from(source, path, secs, 0) matches Some(sc) && r matches Ok(out) && {
            &&& out.file.path@ == path
            &&& out.file.language == Language::Vue
            &&& out.file.content_hash@ == hex_lower(sha256_digest(source))
            &&& out.file.parse_status == (if sc.partial { ParseStatus::PartialSuccess } else { ParseStatus::Success })
            &&& out.file.byte_count == source.len()
            &&& symbol_views(out.symbols@) == vue_symbols(
                component_symbol(path, source.len() as usize, lines(vstd::utf8::decode_utf8(source)).len(),
                    Seq::new(sc.symbols.len(), |k: int| sc.symbols[k].id)),
                sc.symbols,
            )
            &&& reference_views(out.references@) == sc.references
            &&& diagnostic_views(out.diagnostics@) == sc.diagnostics
        }
    }
}

// ---------------------------------------------------------------------------
// Executable parts
// ---------------------------------------------------------------------------

fn opening_tag_exec(line: &Vec<char>) -> (r: Option<String>)
    ensures
        match r {
            Some(t) => opening_tag(line@) == Some(t@),
            None => opening_tag(line@) is None,
        },
{
    let gt = chars_of(">");
    let closes = contains_vec(line, &gt) || ends_with_vec(line, &gt);
    let sc = chars_of("<script");
    let tp = chars_of("<template");
    let st = chars_of("<style");
    if starts_with_vec(line, &sc) && closes {
        Some("script".to_owned())
    } else if starts_with_vec(line, &tp) && closes {
        Some("template".to_owned())
    } else if starts_with_vec(line, &st) && closes {
        Some("style".to_owned())
    } else {
        None
    }
}

fn utf8_bytes_exec(v: &Vec<char>) -> (r: Option<usize>)
    ensures
        match r {
            Some(n) => n as int == utf8_bytes(v@),
            None => utf8_bytes(v@) > usize::MAX,
        },
{
    let mut k: usize = 0;
    let mut n: usize = 0;
    while k < v.len()
        invariant
            k <= v.len(),
            n as int == utf8_bytes(v@.take(k as int)),
        decreases v.len() - k,
    {
        assert(v@.take(k + 1).drop_last() =~= v@.take(k as int));
        let c = utf8_len_exec(v[k]);
        match n.checked_add(c) {
            Some(m) => n = m,
            None => {
                proof { lemma_utf8_bytes_prefix(v@, k as int + 1); }
                return None;
            },
        }
        k = k + 1;
    }
    assert(v@.take(k as int) =~= v@);
    Some(n)
}

proof fn lemma_utf8_bytes_prefix(s: Seq<char>, k: int)
    requires
        0 <= k <= s.len(),
    ensures
        utf8_bytes(s.take(k)) <= utf8_bytes(s),
    decreases s.len() - k,
{
    if k < s.len() {
        lemma_utf8_bytes_prefix(s, k + 1);
        assert(s.take(k + 1).drop_last() =~= s.take(k));
        assert(utf8_len(s[k]) >= 1);
    } else {
        assert(s.take(k) =~= s);
    }
}

fn section_lang_exec(tag: &str) -> (r: SectionLang)
    ensures
        r == section_lang(tag@),
{
    if crate::parser::syntax::same_text(tag, "script") {
        SectionLang::TypeScript
    } else if crate::parser::syntax::same_text(tag, "template") {
        SectionLang::Html
    } else {
        SectionLang::Css
    }
}

pub open spec fn open_view(c: Option<(String, usize, usize)>) -> Option<OpenTag> {
    match c {
        Some((t, l, cs)) => Some(OpenTag { tag: t@, line: l as int, content_start: cs as int }),
        None => None,
    }
}

/// The sections of a component file whose text `text` decodes `source`.
fn split_sections_exec(source: &[u8], text: &str) -> (r: Option<Vec<SfcSection>>)
    requires
        vstd::utf8::valid_utf8(source@),
        text@ == vstd::utf8::decode_utf8(source@),
    ensures
        match r {
            Some(v) => split_sections(source@) == Some(section_views(v@))
                && forall|j: int| 0 <= j < v@.len() ==> (#[trigger] v@[j]).byte_offset <= v@[j].content_end <= source@.len(),
            None => split_sections(source@) is None,
        },
{
    let chars = chars_of(text);
    let ls = lines_vec(&chars);
    let ghost lsv = views(ls@);
    let mut out: Vec<SfcSection> = Vec::new();
    let mut cur: Option<(String, usize, usize)> = None;
    let mut pos: usize = 0;
    let mut i: usize = 0;
    while i < ls.len()
        invariant
            i <= ls.len(),
            lsv == views(ls@),
            lsv == lines(vstd::utf8::decode_utf8(source@)),
            open_view(cur) matches Some(o) ==> o.line < i as int,
            forall|j: int| 0 <= j < out@.len() ==> (#[trigger] out@[j]).byte_offset <= out@[j].content_end <= source@.len(),
            match sections_from(source@, lsv, i as int, pos as int, open_view(cur)) {
                Some(rest) => split_sections(source@) == Some(section_views(out@) + rest),
                None => split_sections(source@) is None,
            },
        decreases ls.len() - i,
    {
        let ghost oc = open_view(cur);
        let ghost before = section_views(out@);
        let line = &ls[i];
        assert(lsv[i as int] == line@);
        let tr = trim_vec(line);
        let n = match utf8_bytes_exec(line) {
            Some(n) => n,
            None => {
                assert(sections_from(source@, lsv, i as int, pos as int, oc) is None);
                return None;
            },
        };
        let npos = match pos.checked_add(n) {
            Some(a) => match a.checked_add(1) {
                Some(b) => b,
                None => {
                    assert(sections_from(source@, lsv, i as int, pos as int, oc) is None);
                    return None;
                },
            },
            None => {
                assert(sections_from(source@, lsv, i as int, pos as int, oc) is None);
                return None;
            },
        };
        match opening_tag_exec(&tr) {
            Some(tag) => {
                cur = Some((tag, i, npos));
            },
            None => {
                let close_now = match &cur {
                    Some((tag, _, _)) => {
                        let mut closing = chars_of("</");
                        append_str(&mut closing, tag.as_str());
                        closing.push('>');
                        proof { reveal_strlit(">"); }
                        assert(closing@ =~= "</"@ + tag@ + ">"@);
                        starts_with_vec(&tr, &closing)
                    },
                    None => false,
                };
                if close_now {
                    let (tag, l, cs) = match cur {
                        Some(x) => x,
                        None => {
                            return None;
                        },
                    };
                    let end = if pos < source.len() { pos } else { source.len() };
                    if cs > end {
                        assert(sections_from(source@, lsv, i as int, pos as int, oc) is None);
                        return None;
                    }
                    let content = match utf8_str(&source[cs..end]) {
                        Some(c) => c.to_owned(),
                        None => {
                            assert(sections_from(source@, lsv, i as int, pos as int, oc) is None);
                            return None;
                        },
                    };
                    let lang = section_lang_exec(tag.as_str());
                    let sec = SfcSection { tag, content, byte_offset: cs, content_end: end, line_offset: l + 1, lang };
                    let ghost sv = sec@;
                    out.push(sec);
                    assert(section_views(out@) =~= before.push(sv));
                    proof {
                        match sections_from(source@, lsv, i as int + 1, npos as int, None) {
                            Some(rest) => {
                                assert(before + (seq![sv] + rest) =~= before.push(sv) + rest);
                            },
                            None => {},
                        }
                    }
                    cur = None;
                }
            },
        }
        pos = npos;
        i = i + 1;
    }
    assert(section_views(out@) + Seq::<SectionView>::empty() =~= section_views(out@));
    Some(out)
}

/// Parses one script section and adds what it gives; `false` where its parse cannot finish.
fn absorb_script(
    sec: &SfcSection,
    source: &[u8],
    file_path: &str,
    symbols: &mut Vec<Symbol>,
    references: &mut Vec<Reference>,
    diagnostics: &mut Vec<Diagnostic>,
    partial: &mut bool,
) -> (ok: bool)
    requires
        sec.byte_offset <= sec.content_end <= source@.len(),
    ensures
        ok == section_outcome(source@.subrange(sec.byte_offset as int, sec.content_end as int), file_path@, sec.byte_offset, sec.line_offset) is Some,
        ok ==> match section_outcome(source@.subrange(sec.byte_offset as int, sec.content_end as int), file_path@, sec.byte_offset, sec.line_offset).unwrap() {
            Ok(c) => symbol_views(final(symbols)@) == symbol_views(old(symbols)@) + c.symbols
                && reference_views(final(references)@) == reference_views(old(references)@) + c.references
                && final(diagnostics)@ == old(diagnostics)@
                && *final(partial) == *old(partial),
            Err(err) => symbol_views(final(symbols)@) == symbol_views(old(symbols)@)
                && reference_views(final(references)@) == reference_views(old(references)@)
                && diagnostic_views(final(diagnostics)@) == diagnostic_views(old(diagnostics)@).push(section_warning(err, file_path@))
                && *final(partial) == true,
        },
{
    let bytes = &source[sec.byte_offset..sec.content_end];
    let ghost sb = symbol_views(symbols@);
    let ghost rb = reference_views(references@);
    let ghost db = diagnostic_views(diagnostics@);
    match parse_typescript_section_checked(bytes, file_path, sec.byte_offset, sec.line_offset) {
        None => false,
        Some(Ok((syms, refs, _diags))) => {
            let mut j: usize = 0;
            while j < syms.len()
                invariant
                    j <= syms.len(),
                    symbol_views(symbols@) == sb + symbol_views(syms@).take(j as int),
                decreases syms.len() - j,
            {
                let s = syms[j].clone_symbol();
                proof { lemma_symbol_views_push(symbols@, s); }
                symbols.push(s);
                assert(symbol_views(syms@).take(j + 1) =~= symbol_views(syms@).take(j as int).push(syms@[j as int]@));
                j = j + 1;
            }
            assert(symbol_views(syms@).take(j as int) =~= symbol_views(syms@));
            let mut j: usize = 0;
            while j < refs.len()
                invariant
                    j <= refs.len(),
                    reference_views(references@) == rb + reference_views(refs@).take(j as int),
                decreases refs.len() - j,
            {
                let r = refs[j].clone_reference();
                proof { crate::ir::lemma_reference_views_push(references@, r); }
                references.push(r);
                assert(reference_views(refs@).take(j + 1) =~= reference_views(refs@).take(j as int).push(refs@[j as int]@));
                j = j + 1;
            }
            assert(reference_views(refs@).take(j as int) =~= reference_views(refs@));
            true
        },
        Some(Err(e)) => {
            let ghost err = section_outcome(bytes@, file_path@, sec.byte_offset, sec.line_offset)->Some_0->Err_0;
            let mut msg = chars_of("Vue <script> parse failed: ");
            let es = e.to_string();
            append_str(&mut msg, es.as_str());
            let d = Diagnostic {
                file: file_path.to_owned(),
                severity: DiagSeverity::Warning,
                message: string_of(msg.as_slice()),
                span: None,
                fallback_data: None,
            };
            assert(d@ == section_warning(err, file_path@)) by {
                assert(msg@ =~= "Vue <script> parse failed: "@ + section_error_message(err, file_path@));
            }
            diagnostics.push(d);
            assert(diagnostic_views(diagnostics@) =~= db.push(d@));
            *partial = true;
            true
        },
    }
}

impl VueSfcParser {
    pub closed spec fn new_spec() -> Self {
        VueSfcParser { _private: () }
    }

    pub fn new() -> (r: Self)
        ensures
            r == Self::new_spec(),
    {
        VueSfcParser { _private: () }
    }

    pub fn language(&self) -> (r: Language)
        ensures
            r == Language::Vue,
    {
        Language::Vue
    }

    /// Parses a component file: the script section as TypeScript, its
    /// symbols placed under the component symbol.
    pub fn parse(&self, source: &[u8], file_path: &str) -> (r: WikiGenResult<ParseOutput>)
        requires
            vue_finishes(source@, file_path@),
        ensures
            vue_result_ok(r, source@, file_path@),
    {
        match self.parse_checked(source, file_path) {
            Some(r) => r,
            None => {
                assert(false);
                Err(WikiGenError::Parse { file: file_path.to_owned(), message: String::new() })
            },
        }
    }

    /// [`VueSfcParser::parse`], or `None` where a section cannot be cut or
    /// its script parse cannot finish.
    pub fn parse_checked(&self, source: &[u8], file_path: &str) -> (r: Option<WikiGenResult<ParseOutput>>)
        ensures
            match r {
                None => !vue_finishes(source@, file_path@),
                Some(x) => vue_finishes(source@, file_path@) && vue_result_ok(x, source@, file_path@),
            },
    {
        let text = match utf8_str_or_message(source) {
            Err(m) => {
                let mut msg = chars_of("Invalid UTF-8: ");
                append_str(&mut msg, m.as_str());
                let ghost pre = "Invalid UTF-8: "@;
                assert(msg@.subrange(0, pre.len() as int) =~= pre);
                return Some(Err(WikiGenError::Parse { file: file_path.to_owned(), message: string_of(msg.as_slice()) }));
            },
            Ok(s) => s,
        };
        let sections = match split_sections_exec(source, text) {
            None => return None,
            Some(v) => v,
        };
        let ghost secs = section_views(sections@);
        let mut symbols: Vec<Symbol> = Vec::new();
        let mut references: Vec<Reference> = Vec::new();
        let mut diagnostics: Vec<Diagnostic> = Vec::new();
        let mut partial = false;
        let mut k: usize = 0;
        // walk the sections from the last to the first, so that what is
        // collected is always a suffix of the scripts
        let mut rev_symbols: Vec<Vec<Symbol>> = Vec::new();
        let ghost total = scripts_from(source@, file_path@, secs, 0);
        while k < sections.len()
            invariant
                k <= sections.len(),
                secs == section_views(sections@),
                total == scripts_from(source@, file_path@, secs, 0),
                vstd::utf8::valid_utf8(source@),
                split_sections(source@) == Some(secs),
                forall|j: int| 0 <= j < secs.len() ==> 0 <= #[trigger] secs[j].byte_offset <= secs[j].content_end <= source@.len(),
                match scripts_from(source@, file_path@, secs, k as int) {
                    Some(rest) => total == Some(Scripts {
                        symbols: symbol_views(symbols@) + rest.symbols,
                        references: reference_views(references@) + rest.references,
                        diagnostics: diagnostic_views(diagnostics@) + rest.diagnostics,
                        partial: partial || rest.partial,
                    }),
                    None => total is None,
                },
            decreases sections.len() - k,
        {
            let sec = &sections[k];
            assert(secs[k as int] == sec@);
            if matches!(sec.lang, SectionLang::TypeScript) {
                let ghost sb = symbol_views(symbols@);
                let ghost rb = reference_views(references@);
                let ghost db = diagnostic_views(diagnostics@);
                let ghost pb = partial;
                let ok = absorb_script(sec, source, file_path, &mut symbols, &mut references, &mut diagnostics, &mut partial);
                if !ok {
                    assert(scripts_from(source@, file_path@, secs, k as int) is None);
                    return None;
                }
                proof {
                    let o = section_outcome(source@.subrange(sec.byte_offset as int, sec.content_end as int), file_path@, sec.byte_offset, sec.line_offset).unwrap();
                    match scripts_from(source@, file_path@, secs, k as int + 1) {
                        Some(rest) => {
                            match o {
                                Ok(c) => {
                                    assert(sb + (c.symbols + rest.symbols) =~= symbol_views(symbols@) + rest.symbols);
                                    assert(rb + (c.references + rest.references) =~= reference_views(references@) + rest.references);
                                },
                                Err(err) => {
                                    assert(db + (seq![section_warning(err, file_path@)] + rest.diagnostics) =~= diagnostic_views(diagnostics@) + rest.diagnostics);
                                },
                            }
                        },
                        None => {},
                    }
                }
            }
            k = k + 1;
        }
        assert(total matches Some(sc) && sc.symbols =~= symbol_views(symbols@) && sc.references =~= reference_views(references@)
            && sc.diagnostics =~= diagnostic_views(diagnostics@) && sc.partial == partial);
        let ghost sc = total->Some_0;
        // the component
        let path_chars = chars_of(file_path);
        let name = match file_stem_vec(&path_chars) {
            Some(n) => n,
            None => chars_of("UnknownComponent"),
        };
        let mut q = chars_of(file_path);
        q.push(':');
        append_vec(&mut q, &name);
        proof { reveal_strlit(":"); }
        assert(q@ =~= file_path@ + ":"@ + component_name(file_path@));
        let mut sig = chars_of("<");
        append_vec(&mut sig, &name);
        sig.push('>');
        proof { reveal_strlit(">"); reveal_strlit("<"); }
        assert(sig@ =~= "<"@ + component_name(file_path@) + ">"@);
        let text_chars = chars_of(text);
        let line_count = lines_vec(&text_chars).len();
        let mut children: Vec<SymbolId> = Vec::new();
        let mut j: usize = 0;
        while j < symbols.len()
            invariant
                j <= symbols.len(),
                children@.len() == j,
                forall|m: int| 0 <= m < j ==> (#[trigger] children@[m])@ == symbols@[m].id@,
            decreases symbols.len() - j,
        {
            children.push(symbols[j].id.dup());
            j = j + 1;
        }
        let qs = string_of(q.as_slice());
        let comp_id = SymbolId::new(file_path.to_owned(), 0, source.len(), SymbolKind::Component, qs.clone());
        let anns: Vec<Annotation> = Vec::new();
        let tps: Vec<String> = Vec::new();
        let comp = Symbol {
            id: comp_id,
            kind: SymbolKind::Component,
            qualified_name: qs,
            visibility: Visibility::Public,
            file: file_path.to_owned(),
            span: Span::new(0, source.len(), 1, line_count),
            signature: Some(string_of(sig.as_slice())),
            doc: None,
            parent: None,
            children,
            annotations: anns,
            type_params: tps,
        };
        let ghost cv = comp@;
        proof {
            assert(id_views(comp.children@) =~= Seq::new(sc.symbols.len(), |m: int| sc.symbols[m].id));
            assert(annotation_views(comp.annotations@) =~= Seq::<AnnotationView>::empty());
            assert(strs(comp.type_params@) =~= Seq::<Seq<char>>::empty());
        }
        assert(cv == component_symbol(file_path@, source.len(), lines(vstd::utf8::decode_utf8(source@)).len(),
            Seq::new(sc.symbols.len(), |m: int| sc.symbols[m].id)));
        let mut final_symbols: Vec<Symbol> = Vec::new();
        let pid = comp.id.dup();
        final_symbols.push(comp);
        let mut j: usize = 0;
        while j < symbols.len()
            invariant
                j <= symbols.len(),
                pid@ == cv.id,
                final_symbols@.len() == j + 1,
                final_symbols@[0]@ == cv,
                symbol_views(symbols@) == sc.symbols,
                forall|m: int| 0 < m <= j ==> (#[trigger] final_symbols@[m])@ == (SymbolView { parent: Some(cv.id), ..sc.symbols[m - 1] }),
            decreases symbols.len() - j,
        {
            let mut s = symbols[j].clone_symbol();
            assert(symbol_views(symbols@)[j as int] == symbols@[j as int]@);
            s.parent = Some(pid.dup());
            final_symbols.push(s);
            j = j + 1;
        }
        assert(symbol_views(final_symbols@) =~= vue_symbols(cv, sc.symbols));
        let file = FileIR {
            path: file_path.to_owned(),
            language: Language::Vue,
            content_hash: compute_file_hash(source),
            parse_status: if partial { ParseStatus::PartialSuccess } else { ParseStatus::Success },
            byte_count: source.len(),
        };
        Some(Ok(ParseOutput { file, symbols: final_symbols, references, diagnostics }))
    }
}

} // verus!
