//! Wiki pages: the data each page shows, gathered from the repository model,
//! and rendered through the page templates with Tera.

use vstd::prelude::*;

use crate::config::string_views;
use crate::diagram::{
    api_flow_text, class_diagram_text, crate_diagram_text, is_alphanumeric, module_diagram_text,
    DiagramGenerator,
};
use crate::error::WikiGenError;
use crate::evidence::LlmDocResult;
use crate::cache::now_rfc3339;
use crate::graph::{group_add, group_position, lemma_group_position, CodeGraph, GraphView};
use crate::ir::{
    reference_views, symbol_views, AuthClassification, Endpoint, FileIR, Language, RepoIR, Symbol,
    SymbolKind, Visibility,
};
use crate::paths::{parent_file_name, parent_file_name_vec};
use crate::text::{append_str, append_vec, chars_of, decimal, decimal_string, eq_vec, string_of};

verus! {

// ---------------------------------------------------------------------------
// Rendering with Tera
// ---------------------------------------------------------------------------

#[verifier::external_type_specification]
#[verifier::external_body]
pub struct ExTeraContext(tera::Context);

/// A value put into a template context.
pub enum CtxView {
    Text(Seq<char>),
    Count(nat),
    List(Seq<Seq<char>>),
    Rows(Seq<Map<Seq<char>, Seq<char>>>),
}

/// What a Tera context holds: its values by name.
pub uninterp spec fn context_map(c: tera::Context) -> Map<Seq<char>, CtxView>;

/// What `Tera::one_off` renders from one of the library's page templates and
/// a context, when it renders. Those templates call no Tera function (such as
/// `get_env`, which reads the environment), so what they render depends on the
/// template and the context alone.
pub uninterp spec fn one_off_render(template: Seq<char>, ctx: Map<Seq<char>, CtxView>) -> Option<Seq<char>>;

/// The map a list of pairs collects into: later pairs replace earlier ones.
pub open spec fn pairs_map(ps: Seq<(Seq<char>, Seq<char>)>) -> Map<Seq<char>, Seq<char>>
    decreases ps.len(),
{
    if ps.len() == 0 {
        Map::empty()
    } else {
        pairs_map(ps.drop_last()).insert(ps.last().0, ps.last().1)
    }
}

pub open spec fn empty_context() -> Map<Seq<char>, CtxView> {
    Map::empty()
}

pub open spec fn pair_views(r: Seq<(String, String)>) -> Seq<(Seq<char>, Seq<char>)> {
    Seq::new(r.len(), |i: int| (r[i].0@, r[i].1@))
}

pub open spec fn row_views(rows: Seq<Vec<(String, String)>>) -> Seq<Seq<(Seq<char>, Seq<char>)>> {
    Seq::new(rows.len(), |i: int| pair_views(rows[i]@))
}

pub open spec fn row_maps(rows: Seq<Seq<(Seq<char>, Seq<char>)>>) -> Seq<Map<Seq<char>, Seq<char>>> {
    Seq::new(rows.len(), |i: int| pairs_map(rows[i]))
}

/// `Context::new`: an empty context.
#[verifier::external_body]
fn new_context() -> (r: tera::Context)
    ensures
        context_map(r) == empty_context(),
{
    tera::Context::new()
}

/// `Context::insert` of a string: the key now holds the text.
#[verifier::external_body]
fn put_text(c: &mut tera::Context, key: &str, v: &str)
    ensures
        context_map(*final(c)) == context_map(*old(c)).insert(key@, CtxView::Text(v@)),
{
    c.insert(key, v);
}

/// `Context::insert` of a count: the key now holds the number.
#[verifier::external_body]
fn put_count(c: &mut tera::Context, key: &str, n: usize)
    ensures
        context_map(*final(c)) == context_map(*old(c)).insert(key@, CtxView::Count(n as nat)),
{
    c.insert(key, &n);
}

/// `Context::insert` of a list of strings: the key now holds the list.
#[verifier::external_body]
fn put_list(c: &mut tera::Context, key: &str, v: &Vec<String>)
    ensures
        context_map(*final(c)) == context_map(*old(c)).insert(key@, CtxView::List(string_views(v@))),
{
    c.insert(key, v);
}

/// `Context::insert` of a list of rows, each row collected into a
/// `HashMap<String, String>`: the key now holds the rows.
#[verifier::external_body]
fn put_rows(c: &mut tera::Context, key: &str, rows: &Vec<Vec<(String, String)>>)
    ensures
        context_map(*final(c)) == context_map(*old(c)).insert(key@, CtxView::Rows(row_maps(row_views(rows@)))),
{
    let maps: Vec<std::collections::HashMap<String, String>> =
        rows.iter().map(|r| r.iter().cloned().collect()).collect();
    c.insert(key, &maps);
}

/// `Tera::one_off` without autoescaping, on one of the library's page
/// templates: the rendered text, or the error's message. Nothing is claimed
/// of other templates, which may call functions such as `get_env`.
#[verifier::external_body]
fn render_one_off(template: &str, c: &tera::Context) -> (r: Result<String, String>)
    requires
        is_page_template(template@),
    ensures
        match one_off_render(template@, context_map(*c)) {
            Some(s) => r matches Ok(x) && x@ == s,
            None => r is Err,
        },
{
    tera::Tera::one_off(template, c, false).map_err(|e| e.to_string())
}

// ---------------------------------------------------------------------------
// Pages
// ---------------------------------------------------------------------------

/// A rendered page: where it goes, its text, and the symbols it documents.
#[derive(Debug)]
pub struct GeneratedPage {
    pub path: String,
    pub content: String,
    pub symbols_referenced: Vec<String>,
}

pub struct PageView {
    pub path: Seq<char>,
    pub content: Seq<char>,
    pub symbols_referenced: Seq<Seq<char>>,
}

impl View for GeneratedPage {
    type V = PageView;

    open spec fn view(&self) -> PageView {
        PageView { path: self.path@, content: self.content@, symbols_referenced: string_views(self.symbols_referenced@) }
    }
}

pub open spec fn page_views(ps: Seq<GeneratedPage>) -> Seq<PageView> {
    Seq::new(ps.len(), |i: int| ps[i]@)
}

/// The templates of the library's pages.
pub open spec fn is_page_template(t: Seq<char>) -> bool {
    t == INDEX_TEMPLATE@ || t == ARCHITECTURE_TEMPLATE@ || t == API_TEMPLATE@ || t == MODULE_TEMPLATE@
}

/// The page a template renders to with a context, if it renders.
pub open spec fn rendered_page(path: Seq<char>, template: Seq<char>, ctx: Map<Seq<char>, CtxView>, refs: Seq<Seq<char>>) -> Option<PageView> {
    match one_off_render(template, ctx) {
        Some(c) => Some(PageView { path, content: c, symbols_referenced: refs }),
        None => None,
    }
}

fn pair(k: &str, v: String) -> (r: (String, String))
    ensures
        r.0@ == k@,
        r.1@ == v@,
{
    (k.to_string(), v)
}

/// Renders a template, or reports the failure under `what`.
fn render_page(what: &str, template: &str, ctx: &tera::Context, path: String, refs: Vec<String>) -> (r: Result<GeneratedPage, WikiGenError>)
    requires
        is_page_template(template@),
    ensures
        match rendered_page(path@, template@, context_map(*ctx), string_views(refs@)) {
            Some(p) => r matches Ok(x) && x@ == p,
            None => r matches Err(WikiGenError::Template(_)),
        },
{
    match render_one_off(template, ctx) {
        Ok(content) => Ok(GeneratedPage { path, content, symbols_referenced: refs }),
        Err(e) => {
            let mut m = chars_of(what);
            append_str(&mut m, " render: ");
            append_str(&mut m, e.as_str());
            Err(WikiGenError::Template(string_of(m.as_slice())))
        },
    }
}

// ---------------------------------------------------------------------------
// Languages and modules
// ---------------------------------------------------------------------------

/// The position of a language among the counts.
pub open spec fn lang_position(cs: Seq<(Language, nat)>, l: Language) -> Option<int>
    decreases cs.len(),
{
    if cs.len() == 0 {
        None
    } else if cs.last().0 == l {
        Some(cs.len() - 1)
    } else {
        lang_position(cs.drop_last(), l)
    }
}

proof fn lemma_lang_position(cs: Seq<(Language, nat)>, l: Language)
    ensures
        lang_position(cs, l) matches Some(p) ==> 0 <= p < cs.len() && cs[p].0 == l,
    decreases cs.len(),
{
    if cs.len() > 0 && cs.last().0 != l {
        lemma_lang_position(cs.drop_last(), l);
    }
}

/// The number of files of each language, languages in the order they first appear.
pub open spec fn lang_counts(files: Seq<FileIR>) -> Seq<(Language, nat)>
    decreases files.len(),
{
    if files.len() == 0 {
        Seq::empty()
    } else {
        let cs = lang_counts(files.drop_last());
        let l = files.last().language;
        match lang_position(cs, l) {
            Some(p) => cs.update(p, (l, cs[p].1 + 1)),
            None => cs.push((l, 1nat)),
        }
    }
}

pub open spec fn count_views(cs: Seq<(Language, usize)>) -> Seq<(Language, nat)> {
    Seq::new(cs.len(), |i: int| (cs[i].0, cs[i].1 as nat))
}

/// Counts the files of each language.
pub fn count_languages(files: &[FileIR]) -> (r: Vec<(Language, usize)>)
    ensures
        count_views(r@) == lang_counts(files@),
{
    let mut cs: Vec<(Language, usize)> = Vec::new();
    let mut k: usize = 0;
    while k < files.len()
        invariant
            k <= files@.len(),
            count_views(cs@) == lang_counts(files@.take(k as int)),
            forall|i: int| 0 <= i < cs@.len() ==> #[trigger] cs@[i].1 <= k,
        decreases files@.len() - k,
    {
        assert(files@.take(k + 1).drop_last() =~= files@.take(k as int));
        let l = files[k].language;
        let ghost cv = count_views(cs@);
        let mut j: usize = cs.len();
        assert(cv.take(j as int) =~= cv);
        assert(files@.take(k + 1).last() == files@[k as int]);
        while j > 0
            invariant
                j <= cs@.len(),
                cv == count_views(cs@),
                lang_position(cv, l) == lang_position(cv.take(j as int), l),
            ensures
                j <= cs@.len(),
                cv == count_views(cs@),
                lang_position(cv, l) == lang_position(cv.take(j as int), l),
                j == 0 || cs@[j - 1].0 == l,
            decreases j,
        {
            if cs[j - 1].0 == l {
                break;
            }
            assert(cv.take(j as int).drop_last() =~= cv.take(j - 1));
            j = j - 1;
        }
        proof { lemma_lang_position(cv, l); }
        if j > 0 && cs[j - 1].0 == l {
            assert(cv.take(j as int).last().0 == l);
            assert(lang_position(cv, l) == Some((j - 1) as int));
            let c = cs[j - 1].1;
            cs.set(j - 1, (l, c + 1));
            assert(count_views(cs@) =~= cv.update(j - 1, (l, cv[j - 1].1 + 1)));
        } else {
            assert(cv.take(0) =~= Seq::<(Language, nat)>::empty());
            assert(lang_position(cv, l) is None);
            cs.push((l, 1));
            assert(count_views(cs@) =~= cv.push((l, 1nat)));
        }
        k = k + 1;
    }
    assert(files@.take(k as int) =~= files@);
    cs
}

/// The rows of the language table: name and number of files.
pub open spec fn lang_rows(cs: Seq<(Language, nat)>) -> Seq<Seq<(Seq<char>, Seq<char>)>> {
    Seq::new(cs.len(), |i: int| seq![("name"@, cs[i].0.spec_name()), ("count"@, decimal(cs[i].1))])
}

fn lang_rows_exec(cs: &Vec<(Language, usize)>) -> (r: Vec<Vec<(String, String)>>)
    ensures
        row_views(r@) == lang_rows(count_views(cs@)),
{
    let mut rows: Vec<Vec<(String, String)>> = Vec::new();
    let mut k: usize = 0;
    while k < cs.len()
        invariant
            k <= cs@.len(),
            row_views(rows@) == lang_rows(count_views(cs@)).take(k as int),
        decreases cs@.len() - k,
    {
        let mut row: Vec<(String, String)> = Vec::new();
        row.push(pair("name", cs[k].0.to_string()));
        row.push(pair("count", decimal_string(cs[k].1)));
        let ghost rv = pair_views(row@);
        let ghost before = row_views(rows@);
        rows.push(row);
        assert(rv =~= lang_rows(count_views(cs@))[k as int]);
        assert(row_views(rows@) =~= before.push(rv));
        assert(row_views(rows@) =~= lang_rows(count_views(cs@)).take(k + 1));
        k = k + 1;
    }
    rows
}

/// The module a symbol's page lists it under: the name of its file's directory.
pub open spec fn module_of(s: Symbol) -> Seq<char> {
    match parent_file_name(s.file@) {
        Some(n) => n,
        None => "root"@,
    }
}

/// The symbols grouped by module, modules in the order they first appear.
pub open spec fn module_groups(syms: Seq<Symbol>) -> Seq<(Seq<char>, Seq<usize>)>
    decreases syms.len(),
{
    if syms.len() == 0 {
        Seq::empty()
    } else {
        group_add(module_groups(syms.drop_last()), module_of(syms.last()), (syms.len() - 1) as usize)
    }
}

pub open spec fn groups_view(g: Seq<(String, Vec<usize>)>) -> Seq<(Seq<char>, Seq<usize>)> {
    Seq::new(g.len(), |i: int| (g[i].0@, g[i].1@))
}

pub open spec fn group_names(g: Seq<(Seq<char>, Seq<usize>)>) -> Seq<Seq<char>> {
    Seq::new(g.len(), |i: int| g[i].0)
}

proof fn lemma_module_groups_bound(syms: Seq<Symbol>)
    ensures
        forall|i: int, j: int| 0 <= i < module_groups(syms).len() && 0 <= j < module_groups(syms)[i].1.len()
            ==> #[trigger] module_groups(syms)[i].1[j] < syms.len(),
    decreases syms.len(),
{
    if syms.len() > 0 {
        let prev = module_groups(syms.drop_last());
        lemma_module_groups_bound(syms.drop_last());
        lemma_group_position(prev, module_of(syms.last()));
        let g = module_groups(syms);
        assert forall|i: int, j: int| 0 <= i < g.len() && 0 <= j < g[i].1.len() implies #[trigger] g[i].1[j] < syms.len() by {
            match group_position(prev, module_of(syms.last())) {
                Some(p) => {
                    if i == p {
                        if j < prev[p].1.len() {
                            assert(g[i].1[j] == prev[p].1[j]);
                        }
                    } else {
                        assert(g[i] == prev[i]);
                    }
                },
                None => {
                    if i < prev.len() {
                        assert(g[i] == prev[i]);
                    }
                },
            }
        }
    }
}

/// Groups the symbols by module.
pub fn collect_modules(ir: &RepoIR) -> (r: Vec<(String, Vec<usize>)>)
    ensures
        groups_view(r@) == module_groups(ir.symbols@),
{
    let mut gs: Vec<(String, Vec<usize>)> = Vec::new();
    let mut k: usize = 0;
    while k < ir.symbols.len()
        invariant
            k <= ir.symbols@.len(),
            groups_view(gs@) == module_groups(ir.symbols@.take(k as int)),
        decreases ir.symbols@.len() - k,
    {
        assert(ir.symbols@.take(k + 1).drop_last() =~= ir.symbols@.take(k as int));
        let s = &ir.symbols[k];
        let fc = chars_of(s.file.as_str());
        let name: Vec<char> = match parent_file_name_vec(&fc) {
            Some(n) => n,
            None => chars_of("root"),
        };
        assert(name@ == module_of(*s)) by { reveal_strlit("root"); }
        let ghost gv = groups_view(gs@);
        let mut j: usize = gs.len();
        assert(gv.take(j as int) =~= gv);
        while j > 0
            invariant
                j <= gs@.len(),
                gv == groups_view(gs@),
                group_position(gv, name@) == group_position(gv.take(j as int), name@),
            ensures
                j <= gs@.len(),
                gv == groups_view(gs@),
                group_position(gv, name@) == group_position(gv.take(j as int), name@),
                j == 0 || gv[j - 1].0 == name@,
            decreases j,
        {
            let gn = chars_of(gs[j - 1].0.as_str());
            assert(gv[j - 1].0 == gs@[j - 1].0@);
            if eq_vec(&gn, &name) {
                break;
            }
            assert(gv.take(j as int).drop_last() =~= gv.take(j - 1));
            j = j - 1;
        }
        proof { lemma_group_position(gv, name@); }
        let found = j > 0 && eq_vec(&chars_of(gs[j - 1].0.as_str()), &name);
        assert(ir.symbols@.take(k + 1).last() == ir.symbols@[k as int]);
        if found {
            assert(gv.take(j as int).last().0 == name@);
            assert(group_position(gv, name@) == Some((j - 1) as int));
            let mut entry = gs[j - 1].1.clone();
            assert(entry@ == gv[j - 1].1);
            entry.push(k);
            let key = gs[j - 1].0.clone();
            gs.set(j - 1, (key, entry));
            assert(groups_view(gs@) =~= gv.update(j - 1, (name@, gv[j - 1].1.push(k))));
        } else {
            assert(gv.take(0) =~= Seq::<(Seq<char>, Seq<usize>)>::empty());
            assert(group_position(gv, name@) is None);
            let mut one: Vec<usize> = Vec::new();
            one.push(k);
            gs.push((string_of(name.as_slice()), one));
            assert(groups_view(gs@) =~= gv.push((name@, seq![k])));
        }
        k = k + 1;
    }
    assert(ir.symbols@.take(k as int) =~= ir.symbols@);
    gs
}

// ---------------------------------------------------------------------------
// Generated documentation
// ---------------------------------------------------------------------------

/// The documentation generated for a symbol key, the first entry under it.
pub open spec fn doc_lookup(docs: Seq<(String, LlmDocResult)>, key: Seq<char>) -> Option<LlmDocResult>
    decreases docs.len(),
{
    if docs.len() == 0 {
        None
    } else if docs[0].0@ == key {
        Some(docs[0].1)
    } else {
        doc_lookup(docs.drop_first(), key)
    }
}

pub fn find_doc<'a>(docs: &'a [(String, LlmDocResult)], key: &str) -> (r: Option<&'a LlmDocResult>)
    ensures
        match doc_lookup(docs@, key@) {
            Some(d) => r matches Some(x) && *x == d,
            None => r is None,
        },
{
    let kc = chars_of(key);
    let mut k: usize = 0;
    assert(docs@.skip(0) =~= docs@);
    while k < docs.len()
        invariant
            k <= docs@.len(),
            kc@ == key@,
            doc_lookup(docs@, key@) == doc_lookup(docs@.skip(k as int), key@),
        decreases docs@.len() - k,
    {
        let dk = chars_of(docs[k].0.as_str());
        assert(docs@.skip(k as int)[0] == docs@[k as int]);
        if eq_vec(&dk, &kc) {
            return Some(&docs[k].1);
        }
        assert(docs@.skip(k as int).drop_first() =~= docs@.skip(k + 1));
        k = k + 1;
    }
    None
}

/// The summary generated for a symbol, or nothing.
pub open spec fn doc_summary(docs: Seq<(String, LlmDocResult)>, key: Seq<char>) -> Seq<char> {
    match doc_lookup(docs, key) {
        Some(d) => d.summary@,
        None => Seq::empty(),
    }
}

/// The detailed text generated for a symbol, or nothing.
pub open spec fn doc_detailed(docs: Seq<(String, LlmDocResult)>, key: Seq<char>) -> Seq<char> {
    match doc_lookup(docs, key) {
        Some(d) => d.detailed@,
        None => Seq::empty(),
    }
}

pub open spec fn symbol_key(s: Symbol) -> Seq<char> {
    s.id.spec_key()
}

fn summary_of(docs: &[(String, LlmDocResult)], s: &Symbol) -> (r: String)
    ensures
        r@ == doc_summary(docs@, symbol_key(*s)),
{
    let key = s.id.stable_key();
    match find_doc(docs, key.as_str()) {
        Some(d) => d.summary.clone(),
        None => String::new(),
    }
}

fn detailed_of(docs: &[(String, LlmDocResult)], s: &Symbol) -> (r: String)
    ensures
        r@ == doc_detailed(docs@, symbol_key(*s)),
{
    let key = s.id.stable_key();
    match find_doc(docs, key.as_str()) {
        Some(d) => d.detailed.clone(),
        None => String::new(),
    }
}

// ---------------------------------------------------------------------------
// The index page
// ---------------------------------------------------------------------------

/// What the index page shows.
pub open spec fn index_context(ir: RepoIR, overview: Seq<char>, commit: Seq<char>, at: Seq<char>) -> Map<Seq<char>, CtxView> {
    empty_context()
        .insert("repo_root"@, CtxView::Text(ir.repo_root@))
        .insert("source_commit"@, CtxView::Text(commit))
        .insert("generated_at"@, CtxView::Text(at))
        .insert("overview"@, CtxView::Text(overview))
        .insert("file_count"@, CtxView::Count(ir.files@.len()))
        .insert("symbol_count"@, CtxView::Count(ir.symbols@.len()))
        .insert("endpoint_count"@, CtxView::Count(ir.endpoints@.len()))
        .insert("languages"@, CtxView::Rows(row_maps(lang_rows(lang_counts(ir.files@)))))
        .insert("crate_diagram"@, CtxView::Text(crate_diagram_text(ir.manifests@)))
        .insert("modules"@, CtxView::List(group_names(module_groups(ir.symbols@))))
}

pub open spec fn index_page(ir: RepoIR, overview: Seq<char>, commit: Seq<char>, at: Seq<char>) -> Option<PageView> {
    rendered_page("index.md"@, INDEX_TEMPLATE@, index_context(ir, overview, commit, at), Seq::empty())
}

fn module_names(gs: &Vec<(String, Vec<usize>)>) -> (r: Vec<String>)
    ensures
        string_views(r@) == group_names(groups_view(gs@)),
{
    let mut names: Vec<String> = Vec::new();
    let mut k: usize = 0;
    while k < gs.len()
        invariant
            k <= gs@.len(),
            string_views(names@) == group_names(groups_view(gs@)).take(k as int),
        decreases gs@.len() - k,
    {
        let ghost before = string_views(names@);
        let x = gs[k].0.clone();
        assert(x@ == gs@[k as int].0@);
        names.push(x);
        assert(string_views(names@) =~= before.push(x@));
        assert(string_views(names@) =~= group_names(groups_view(gs@)).take(k + 1));
        k = k + 1;
    }
    names
}

// ---------------------------------------------------------------------------
// The architecture page
// ---------------------------------------------------------------------------

pub open spec fn is_key_trait(s: Symbol) -> bool {
    (s.kind == SymbolKind::Trait || s.kind == SymbolKind::Interface) && s.visibility == Visibility::Public
}

pub open spec fn trait_row(s: Symbol, docs: Seq<(String, LlmDocResult)>) -> Seq<(Seq<char>, Seq<char>)> {
    seq![("name"@, s.qualified_name@), ("kind"@, s.kind.spec_name()), ("description"@, doc_summary(docs, symbol_key(s)))]
}

/// The rows of the first `n` public traits and interfaces from `k` on.
pub open spec fn key_trait_rows(syms: Seq<Symbol>, docs: Seq<(String, LlmDocResult)>, k: int, n: int) -> Seq<Seq<(Seq<char>, Seq<char>)>>
    decreases syms.len() - k,
{
    if k < 0 || k >= syms.len() || n <= 0 {
        Seq::empty()
    } else if is_key_trait(syms[k]) {
        seq![trait_row(syms[k], docs)] + key_trait_rows(syms, docs, k + 1, n - 1)
    } else {
        key_trait_rows(syms, docs, k + 1, n)
    }
}

/// What the architecture page shows.
pub open spec fn architecture_context(ir: RepoIR, g: GraphView, docs: Seq<(String, LlmDocResult)>, commit: Seq<char>, at: Seq<char>) -> Map<Seq<char>, CtxView> {
    empty_context()
        .insert("source_commit"@, CtxView::Text(commit))
        .insert("generated_at"@, CtxView::Text(at))
        .insert("module_diagram"@, CtxView::Text(module_diagram_text(g)))
        .insert("class_diagram"@, CtxView::Text(class_diagram_text(symbol_views(ir.symbols@), reference_views(ir.references@))))
        .insert("key_traits"@, CtxView::Rows(row_maps(key_trait_rows(ir.symbols@, docs, 0, 15))))
}

pub open spec fn architecture_page(ir: RepoIR, g: GraphView, docs: Seq<(String, LlmDocResult)>, commit: Seq<char>, at: Seq<char>) -> Option<PageView> {
    rendered_page("architecture.md"@, ARCHITECTURE_TEMPLATE@, architecture_context(ir, g, docs, commit, at), Seq::empty())
}

fn key_traits_exec(syms: &[Symbol], docs: &[(String, LlmDocResult)]) -> (r: Vec<Vec<(String, String)>>)
    ensures
        row_views(r@) == key_trait_rows(syms@, docs@, 0, 15),
{
    let mut rows: Vec<Vec<(String, String)>> = Vec::new();
    let mut taken: usize = 0;
    let mut k: usize = 0;
    while k < syms.len() && taken < 15
        invariant
            k <= syms@.len(),
            taken == rows@.len(),
            taken <= 15,
            row_views(rows@) + key_trait_rows(syms@, docs@, k as int, 15 - taken) == key_trait_rows(syms@, docs@, 0, 15),
        decreases syms@.len() - k,
    {
        let s = &syms[k];
        let is_key = matches!(s.kind, SymbolKind::Trait | SymbolKind::Interface) && matches!(s.visibility, Visibility::Public);
        if is_key {
            let mut row: Vec<(String, String)> = Vec::new();
            row.push(pair("name", s.qualified_name.clone()));
            row.push(pair("kind", s.kind.to_string()));
            row.push(pair("description", summary_of(docs, s)));
            let ghost before = row_views(rows@);
            let ghost rv = pair_views(row@);
            assert(rv =~= trait_row(*s, docs@));
            rows.push(row);
            assert(row_views(rows@) =~= before.push(rv));
            assert(before + (seq![rv] + key_trait_rows(syms@, docs@, k + 1, 15 - taken - 1)) =~= row_views(rows@) + key_trait_rows(syms@, docs@, k + 1, 15 - taken - 1));
            taken = taken + 1;
        }
        k = k + 1;
    }
    assert(key_trait_rows(syms@, docs@, k as int, 15 - taken) =~= Seq::<Seq<(Seq<char>, Seq<char>)>>::empty());
    assert(row_views(rows@) =~= key_trait_rows(syms@, docs@, 0, 15));
    rows
}

// ---------------------------------------------------------------------------
// The API page
// ---------------------------------------------------------------------------

/// The variant name `Debug` shows for an auth classification.
pub open spec fn auth_debug(c: AuthClassification) -> Seq<char> {
    match c {
        AuthClassification::Required => "Required"@,
        AuthClassification::Optional => "Optional"@,
        AuthClassification::Unknown => "Unknown"@,
    }
}

pub open spec fn endpoint_row(e: Endpoint) -> Seq<(Seq<char>, Seq<char>)> {
    seq![
        ("method"@, e.method.spec_name()),
        ("path"@, e.path@),
        ("handler"@, match e.handler {
            Some(h) => h.spec_qualified_name(),
            None => Seq::empty(),
        }),
        ("auth"@, auth_debug(e.auth.classification)),
        ("description"@, match e.doc {
            Some(d) => match d.summary {
                Some(x) => x@,
                None => Seq::empty(),
            },
            None => Seq::empty(),
        }),
    ]
}

pub open spec fn endpoint_rows(eps: Seq<Endpoint>) -> Seq<Seq<(Seq<char>, Seq<char>)>> {
    Seq::new(eps.len(), |i: int| endpoint_row(eps[i]))
}

/// What the API page shows.
pub open spec fn api_context(ir: RepoIR, g: GraphView, commit: Seq<char>, at: Seq<char>) -> Map<Seq<char>, CtxView> {
    empty_context()
        .insert("source_commit"@, CtxView::Text(commit))
        .insert("generated_at"@, CtxView::Text(at))
        .insert("api_diagram"@, CtxView::Text(api_flow_text(g)))
        .insert("endpoints"@, CtxView::Rows(row_maps(endpoint_rows(ir.endpoints@))))
}

pub open spec fn api_page(ir: RepoIR, g: GraphView, commit: Seq<char>, at: Seq<char>) -> Option<PageView> {
    rendered_page("api.md"@, API_TEMPLATE@, api_context(ir, g, commit, at), Seq::empty())
}

fn auth_debug_exec(c: AuthClassification) -> (r: &'static str)
    ensures
        r@ == auth_debug(c),
{
    match c {
        AuthClassification::Required => "Required",
        AuthClassification::Optional => "Optional",
        AuthClassification::Unknown => "Unknown",
    }
}

fn endpoint_rows_exec(eps: &[Endpoint]) -> (r: Vec<Vec<(String, String)>>)
    ensures
        row_views(r@) == endpoint_rows(eps@),
{
    let mut rows: Vec<Vec<(String, String)>> = Vec::new();
    let mut k: usize = 0;
    while k < eps.len()
        invariant
            k <= eps@.len(),
            row_views(rows@) == endpoint_rows(eps@).take(k as int),
        decreases eps@.len() - k,
    {
        let e = &eps[k];
        let handler = match &e.handler {
            Some(h) => h.qualified_name().to_string(),
            None => String::new(),
        };
        let description = match &e.doc {
            Some(d) => match &d.summary {
                Some(x) => x.clone(),
                None => String::new(),
            },
            None => String::new(),
        };
        let mut row: Vec<(String, String)> = Vec::new();
        row.push(pair("method", e.method.to_string()));
        row.push(pair("path", e.path.clone()));
        row.push(pair("handler", handler));
        row.push(pair("auth", auth_debug_exec(e.auth.classification).to_string()));
        row.push(pair("description", description));
        let ghost before = row_views(rows@);
        let ghost rv = pair_views(row@);
        assert(rv =~= endpoint_row(*e));
        rows.push(row);
        assert(row_views(rows@) =~= before.push(rv));
        assert(row_views(rows@) =~= endpoint_rows(eps@).take(k + 1));
        k = k + 1;
    }
    assert(endpoint_rows(eps@).take(k as int) =~= endpoint_rows(eps@));
    rows
}

// ---------------------------------------------------------------------------
// Module pages
// ---------------------------------------------------------------------------

pub open spec fn module_row(s: Symbol, docs: Seq<(String, LlmDocResult)>) -> Seq<(Seq<char>, Seq<char>)> {
    seq![
        ("name"@, s.qualified_name@),
        ("kind"@, s.kind.spec_name()),
        ("visibility"@, s.visibility.spec_debug_name()),
        ("signature"@, match s.signature {
            Some(x) => x@,
            None => Seq::empty(),
        }),
        ("description"@, doc_summary(docs, symbol_key(s))),
        ("detailed"@, doc_detailed(docs, symbol_key(s))),
        ("file"@, s.file@),
        ("line"@, decimal(s.span.start_line as nat)),
    ]
}

/// The symbols at the given indices.
pub open spec fn pick(syms: Seq<Symbol>, idx: Seq<usize>) -> Seq<Symbol> {
    Seq::new(idx.len(), |i: int| syms[idx[i] as int])
}

pub open spec fn module_rows(syms: Seq<Symbol>, docs: Seq<(String, LlmDocResult)>) -> Seq<Seq<(Seq<char>, Seq<char>)>> {
    Seq::new(syms.len(), |i: int| module_row(syms[i], docs))
}

/// What a module page shows.
pub open spec fn module_context(name: Seq<char>, syms: Seq<Symbol>, docs: Seq<(String, LlmDocResult)>, commit: Seq<char>, at: Seq<char>) -> Map<Seq<char>, CtxView> {
    empty_context()
        .insert("module_name"@, CtxView::Text(name))
        .insert("source_commit"@, CtxView::Text(commit))
        .insert("generated_at"@, CtxView::Text(at))
        .insert("symbols"@, CtxView::Rows(row_maps(module_rows(syms, docs))))
}

/// A character of a module page's file name: itself when alphanumeric, `-`
/// or `_`, otherwise `_`.
pub open spec fn page_name_char(c: char) -> char {
    if is_alphanumeric(c) || c == '-' || c == '_' { c } else { '_' }
}

pub open spec fn module_page_path(name: Seq<char>) -> Seq<char> {
    "modules/"@ + Seq::new(name.len(), |i: int| page_name_char(name[i])) + ".md"@
}

pub open spec fn qualified_names(syms: Seq<Symbol>) -> Seq<Seq<char>> {
    Seq::new(syms.len(), |i: int| syms[i].qualified_name@)
}

pub open spec fn module_page(name: Seq<char>, syms: Seq<Symbol>, docs: Seq<(String, LlmDocResult)>, commit: Seq<char>, at: Seq<char>) -> Option<PageView> {
    rendered_page(module_page_path(name), MODULE_TEMPLATE@, module_context(name, syms, docs, commit, at), qualified_names(syms))
}

/// The page of each module group, in order, if all render.
pub open spec fn module_pages(all: Seq<Symbol>, gs: Seq<(Seq<char>, Seq<usize>)>, docs: Seq<(String, LlmDocResult)>, commit: Seq<char>, at: Seq<char>) -> Option<Seq<PageView>>
    decreases gs.len(),
{
    if gs.len() == 0 {
        Some(Seq::empty())
    } else {
        match (module_pages(all, gs.drop_last(), docs, commit, at), module_page(gs.last().0, pick(all, gs.last().1), docs, commit, at)) {
            (Some(ps), Some(p)) => Some(ps.push(p)),
            _ => None,
        }
    }
}

fn module_page_path_exec(name: &str) -> (r: String)
    ensures
        r@ == module_page_path(name@),
{
    let cs = chars_of(name);
    let mut out = chars_of("modules/");
    let ghost head = out@;
    let mut k: usize = 0;
    while k < cs.len()
        invariant
            k <= cs@.len(),
            cs@ == name@,
            out@ == head + Seq::new(k as nat, |i: int| page_name_char(name@[i])),
        decreases cs@.len() - k,
    {
        let c = cs[k];
        if crate::diagram::char_is_alphanumeric(c) || c == '-' || c == '_' {
            out.push(c);
        } else {
            out.push('_');
        }
        k = k + 1;
        assert(out@ =~= head + Seq::new(k as nat, |i: int| page_name_char(name@[i])));
    }
    append_str(&mut out, ".md");
    string_of(out.as_slice())
}

fn build_module(
    name: &str,
    ir: &RepoIR,
    idx: &Vec<usize>,
    docs: &[(String, LlmDocResult)],
    commit: &str,
    at: &str,
) -> (r: Result<GeneratedPage, WikiGenError>)
    requires
        forall|j: int| 0 <= j < idx@.len() ==> #[trigger] idx@[j] < ir.symbols@.len(),
    ensures
        match module_page(name@, pick(ir.symbols@, idx@), docs@, commit@, at@) {
            Some(p) => r matches Ok(x) && x@ == p,
            None => r matches Err(WikiGenError::Template(_)),
        },
{
    let ghost syms = pick(ir.symbols@, idx@);
    let mut rows: Vec<Vec<(String, String)>> = Vec::new();
    let mut refs: Vec<String> = Vec::new();
    let mut k: usize = 0;
    while k < idx.len()
        invariant
            k <= idx@.len(),
            syms == pick(ir.symbols@, idx@),
            forall|j: int| 0 <= j < idx@.len() ==> #[trigger] idx@[j] < ir.symbols@.len(),
            row_views(rows@) == module_rows(syms, docs@).take(k as int),
            string_views(refs@) == qualified_names(syms).take(k as int),
        decreases idx@.len() - k,
    {
        let s = &ir.symbols[idx[k]];
        assert(syms[k as int] == *s);
        let mut row: Vec<(String, String)> = Vec::new();
        row.push(pair("name", s.qualified_name.clone()));
        row.push(pair("kind", s.kind.to_string()));
        row.push(pair("visibility", s.visibility.debug_name().to_string()));
        row.push(pair("signature", match &s.signature {
            Some(x) => x.clone(),
            None => String::new(),
        }));
        row.push(pair("description", summary_of(docs, s)));
        row.push(pair("detailed", detailed_of(docs, s)));
        row.push(pair("file", s.file.clone()));
        row.push(pair("line", decimal_string(s.span.start_line)));
        let ghost before = row_views(rows@);
        let ghost rv = pair_views(row@);
        assert(rv =~= module_row(*s, docs@));
        rows.push(row);
        assert(row_views(rows@) =~= before.push(rv));
        assert(row_views(rows@) =~= module_rows(syms, docs@).take(k + 1));
        let ghost rbefore = string_views(refs@);
        let qn = s.qualified_name.clone();
        assert(qn@ == s.qualified_name@);
        refs.push(qn);
        assert(string_views(refs@) =~= rbefore.push(qn@));
        assert(string_views(refs@) =~= qualified_names(syms).take(k + 1));
        k = k + 1;
    }
    assert(module_rows(syms, docs@).take(k as int) =~= module_rows(syms, docs@));
    assert(qualified_names(syms).take(k as int) =~= qualified_names(syms));
    let mut c = new_context();
    put_text(&mut c, "module_name", name);
    put_text(&mut c, "source_commit", commit);
    put_text(&mut c, "generated_at", at);
    put_rows(&mut c, "symbols", &rows);
    assert(context_map(c) =~= module_context(name@, syms, docs@, commit@, at@));
    let path = module_page_path_exec(name);
    render_page("module", MODULE_TEMPLATE, &c, path, refs)
}

// ---------------------------------------------------------------------------
// All pages
// ---------------------------------------------------------------------------

/// The pages of the wiki, if all render: the index, the architecture page,
/// the API page when there are endpoints, and one page per module.
pub open spec fn all_pages(ir: RepoIR, g: GraphView, docs: Seq<(String, LlmDocResult)>, overview: Seq<char>, commit: Seq<char>, at: Seq<char>) -> Option<Seq<PageView>> {
    let head = match (index_page(ir, overview, commit, at), architecture_page(ir, g, docs, commit, at)) {
        (Some(a), Some(b)) => Some(seq![a, b]),
        _ => None,
    };
    let with_api = if ir.endpoints@.len() == 0 {
        head
    } else {
        match (head, api_page(ir, g, commit, at)) {
            (Some(h), Some(p)) => Some(h.push(p)),
            _ => None,
        }
    };
    match (with_api, module_pages(ir.symbols@, module_groups(ir.symbols@), docs, commit, at)) {
        (Some(h), Some(m)) => Some(h + m),
        _ => None,
    }
}

proof fn lemma_module_pages_prefix(all: Seq<Symbol>, gs: Seq<(Seq<char>, Seq<usize>)>, j: int, docs: Seq<(String, LlmDocResult)>, commit: Seq<char>, at: Seq<char>)
    requires
        0 <= j <= gs.len(),
        module_pages(all, gs.take(j), docs, commit, at) is None,
    ensures
        module_pages(all, gs, docs, commit, at) is None,
    decreases gs.len(),
{
    if j == gs.len() {
        assert(gs.take(j) =~= gs);
    } else {
        assert(gs.drop_last().take(j) =~= gs.take(j));
        lemma_module_pages_prefix(all, gs.drop_last(), j, docs, commit, at);
    }
}

/// Renders the wiki pages.
pub struct PageBuilder {
    ready: bool,
}

impl PageBuilder {
    /// A builder for the four page templates.
    pub fn new() -> (r: Result<Self, WikiGenError>)
        ensures
            r is Ok,
    {
        Ok(PageBuilder { ready: true })
    }

    fn build_index(&self, ir: &RepoIR, overview: &str, commit: &str, at: &str) -> (r: Result<GeneratedPage, WikiGenError>)
        ensures
            match index_page(*ir, overview@, commit@, at@) {
                Some(p) => r matches Ok(x) && x@ == p,
                None => r matches Err(WikiGenError::Template(_)),
            },
    {
        let mut c = new_context();
        put_text(&mut c, "repo_root", ir.repo_root.as_str());
        put_text(&mut c, "source_commit", commit);
        put_text(&mut c, "generated_at", at);
        put_text(&mut c, "overview", overview);
        put_count(&mut c, "file_count", ir.files.len());
        put_count(&mut c, "symbol_count", ir.symbols.len());
        put_count(&mut c, "endpoint_count", ir.endpoints.len());
        let cs = count_languages(ir.files.as_slice());
        let rows = lang_rows_exec(&cs);
        put_rows(&mut c, "languages", &rows);
        let cd = DiagramGenerator::crate_dependency_diagram(ir.manifests.as_slice());
        put_text(&mut c, "crate_diagram", cd.as_str());
        let gs = collect_modules(ir);
        let names = module_names(&gs);
        put_list(&mut c, "modules", &names);
        assert(context_map(c) =~= index_context(*ir, overview@, commit@, at@));
        let path = "index.md".to_string();
        let refs: Vec<String> = Vec::new();
        assert(string_views(refs@) =~= Seq::<Seq<char>>::empty());
        assert(path@ == "index.md"@);
        render_page("index", INDEX_TEMPLATE, &c, path, refs)
    }

    fn build_architecture(&self, ir: &RepoIR, graph: &CodeGraph, docs: &[(String, LlmDocResult)], commit: &str, at: &str) -> (r: Result<GeneratedPage, WikiGenError>)
        requires
            graph@.wf(),
        ensures
            match architecture_page(*ir, graph@, docs@, commit@, at@) {
                Some(p) => r matches Ok(x) && x@ == p,
                None => r matches Err(WikiGenError::Template(_)),
            },
    {
        let mut c = new_context();
        put_text(&mut c, "source_commit", commit);
        put_text(&mut c, "generated_at", at);
        let md = DiagramGenerator::module_dependency_diagram(graph);
        put_text(&mut c, "module_diagram", md.as_str());
        let cd = DiagramGenerator::class_diagram(ir.symbols.as_slice(), ir.references.as_slice());
        put_text(&mut c, "class_diagram", cd.as_str());
        let rows = key_traits_exec(ir.symbols.as_slice(), docs);
        put_rows(&mut c, "key_traits", &rows);
        assert(context_map(c) =~= architecture_context(*ir, graph@, docs@, commit@, at@));
        let path = "architecture.md".to_string();
        let refs: Vec<String> = Vec::new();
        assert(string_views(refs@) =~= Seq::<Seq<char>>::empty());
        assert(path@ == "architecture.md"@);
        render_page("architecture", ARCHITECTURE_TEMPLATE, &c, path, refs)
    }

    fn build_api(&self, ir: &RepoIR, graph: &CodeGraph, commit: &str, at: &str) -> (r: Result<GeneratedPage, WikiGenError>)
        requires
            graph@.wf(),
        ensures
            match api_page(*ir, graph@, commit@, at@) {
                Some(p) => r matches Ok(x) && x@ == p,
                None => r matches Err(WikiGenError::Template(_)),
            },
    {
        let mut c = new_context();
        put_text(&mut c, "source_commit", commit);
        put_text(&mut c, "generated_at", at);
        let ad = DiagramGenerator::api_flow_diagram(graph);
        put_text(&mut c, "api_diagram", ad.as_str());
        let rows = endpoint_rows_exec(ir.endpoints.as_slice());
        put_rows(&mut c, "endpoints", &rows);
        assert(context_map(c) =~= api_context(*ir, graph@, commit@, at@));
        let path = "api.md".to_string();
        let refs: Vec<String> = Vec::new();
        assert(string_views(refs@) =~= Seq::<Seq<char>>::empty());
        assert(path@ == "api.md"@);
        render_page("api", API_TEMPLATE, &c, path, refs)
    }

    /// The wiki pages, stamped with `generated_at`.
    pub fn build_all_at(
        &self,
        ir: &RepoIR,
        graph: &CodeGraph,
        symbol_docs: &[(String, LlmDocResult)],
        overview: &str,
        source_commit: &str,
        generated_at: &str,
    ) -> (r: Result<Vec<GeneratedPage>, WikiGenError>)
        requires
            graph@.wf(),
        ensures
            match all_pages(*ir, graph@, symbol_docs@, overview@, source_commit@, generated_at@) {
                Some(ps) => r matches Ok(x) && page_views(x@) == ps,
                None => r matches Err(WikiGenError::Template(_)),
            },
    {
        let ghost g = graph@;
        let ghost docs = symbol_docs@;
        let ghost at = generated_at@;
        let ghost commit = source_commit@;
        let mut pages: Vec<GeneratedPage> = Vec::new();
        let index = self.build_index(ir, overview, source_commit, generated_at);
        let p1 = match index {
            Ok(p) => p,
            Err(e) => {
                return Err(e);
            },
        };
        let arch = self.build_architecture(ir, graph, symbol_docs, source_commit, generated_at);
        let p2 = match arch {
            Ok(p) => p,
            Err(e) => {
                return Err(e);
            },
        };
        let ghost p1v = p1@;
        let ghost p2v = p2@;
        pages.push(p1);
        pages.push(p2);
        let ghost head = seq![p1v, p2v];
        assert(page_views(pages@) =~= head);
        if ir.endpoints.len() > 0 {
            let api = self.build_api(ir, graph, source_commit, generated_at);
            match api {
                Ok(p) => {
                    let ghost pv = p@;
                    pages.push(p);
                    assert(page_views(pages@) =~= head.push(pv));
                    assert(api_page(*ir, g, commit, at) == Some(pv));
                },
                Err(e) => {
                    return Err(e);
                },
            }
        }
        let ghost front = page_views(pages@);
        assert(index_page(*ir, overview@, commit, at) == Some(p1v));
        assert(architecture_page(*ir, g, docs, commit, at) == Some(p2v));
        let ghost with_api = if ir.endpoints@.len() == 0 {
            Some(head)
        } else {
            match (Some(head), api_page(*ir, g, commit, at)) {
                (Some(h), Some(p)) => Some(h.push(p)),
                _ => None,
            }
        };
        assert(with_api == Some(front));
        let gs = collect_modules(ir);
        let ghost gv = groups_view(gs@);
        proof { lemma_module_groups_bound(ir.symbols@); }
        let mut k: usize = 0;
        while k < gs.len()
            invariant
                k <= gs@.len(),
                gv == groups_view(gs@),
                gv == module_groups(ir.symbols@),
                docs == symbol_docs@,
                commit == source_commit@,
                at == generated_at@,
                forall|i: int, j: int| 0 <= i < gv.len() && 0 <= j < gv[i].1.len() ==> #[trigger] gv[i].1[j] < ir.symbols@.len(),
                module_pages(ir.symbols@, gv.take(k as int), docs, commit, at) == Some(page_views(pages@).skip(front.len() as int)),
                front.len() <= pages@.len(),
                page_views(pages@).take(front.len() as int) == front,
            decreases gs@.len() - k,
        {
            assert(gv[k as int] == (gs@[k as int].0@, gs@[k as int].1@));
            assert forall|j: int| 0 <= j < gs@[k as int].1@.len() implies #[trigger] gs@[k as int].1@[j] < ir.symbols@.len() by {
                assert(gv[k as int].1[j] == gs@[k as int].1@[j]);
            }
            let name_ref = gs[k].0.as_str();
            let idx_ref = &gs[k].1;
            assert(name_ref@ == gv[k as int].0);
            assert(idx_ref@ == gv[k as int].1);
            let m = build_module(name_ref, ir, idx_ref, symbol_docs, source_commit, generated_at);
            assert(gv.take(k + 1).drop_last() =~= gv.take(k as int));
            assert(gv.take(k + 1).last() == gv[k as int]);
            match m {
                Ok(p) => {
                    let ghost before = page_views(pages@);
                    let ghost pv = p@;
                    pages.push(p);
                    assert(page_views(pages@) =~= before.push(pv));
                    assert(page_views(pages@).skip(front.len() as int) =~= before.skip(front.len() as int).push(pv));
                    assert(page_views(pages@).take(front.len() as int) =~= before.take(front.len() as int));
                },
                Err(e) => {
                    proof {
                        assert(module_page(gv[k as int].0, pick(ir.symbols@, gv[k as int].1), docs, commit, at) is None);
                        assert(module_pages(ir.symbols@, gv.take(k + 1), docs, commit, at) is None);
                        lemma_module_pages_prefix(ir.symbols@, gv, k + 1, docs, commit, at);
                    }
                    return Err(e);
                },
            }
            k = k + 1;
        }
        assert(gv.take(k as int) =~= gv);
        assert(page_views(pages@) =~= front + page_views(pages@).skip(front.len() as int));
        Ok(pages)
    }

    /// The wiki pages, stamped with the current time.
    pub fn build_all(
        &self,
        ir: &RepoIR,
        graph: &CodeGraph,
        symbol_docs: &[(String, LlmDocResult)],
        overview: &str,
        source_commit: &str,
    ) -> (r: Result<Vec<GeneratedPage>, WikiGenError>)
        requires
            graph@.wf(),
        ensures
            r matches Ok(x) ==> exists|at: Seq<char>| crate::cache::utc_stamp_shape(at)
                && #[trigger] all_pages(*ir, graph@, symbol_docs@, overview@, source_commit@, at) == Some(page_views(x@)),
            r is Err ==> exists|at: Seq<char>| crate::cache::utc_stamp_shape(at)
                && #[trigger] all_pages(*ir, graph@, symbol_docs@, overview@, source_commit@, at) is None,
    {
        let now = now_rfc3339();
        self.build_all_at(ir, graph, symbol_docs, overview, source_commit, now.as_str())
    }
}

// ---------------------------------------------------------------------------
// Laws of the module pages
// ---------------------------------------------------------------------------

/// The groups have distinct names, each lists indices of symbols of its
/// module in increasing order, and every symbol is listed in its module's group.
pub open spec fn groups_partition(syms: Seq<Symbol>, gs: Seq<(Seq<char>, Seq<usize>)>) -> bool {
    &&& forall|a: int, b: int| 0 <= a < b < gs.len() ==> #[trigger] gs[a].0 != #[trigger] gs[b].0
    &&& forall|a: int, j: int| 0 <= a < gs.len() && 0 <= j < gs[a].1.len() ==>
        (#[trigger] gs[a].1[j]) < syms.len() && module_of(syms[gs[a].1[j] as int]) == gs[a].0
    &&& forall|a: int, j: int, k: int| 0 <= a < gs.len() && 0 <= j < k < gs[a].1.len() ==>
        #[trigger] gs[a].1[j] < #[trigger] gs[a].1[k]
    &&& forall|i: int| 0 <= i < syms.len() ==> exists|a: int| 0 <= a < gs.len() && #[trigger] gs[a].0 == module_of(#[trigger] syms[i]) && gs[a].1.contains(i as usize)
}

proof fn lemma_group_position_none(gs: Seq<(Seq<char>, Seq<usize>)>, tag: Seq<char>)
    ensures
        group_position(gs, tag) is None ==> forall|k: int| 0 <= k < gs.len() ==> #[trigger] gs[k].0 != tag,
    decreases gs.len(),
{
    if gs.len() > 0 && gs.last().0 != tag {
        lemma_group_position_none(gs.drop_last(), tag);
        assert forall|k: int| 0 <= k < gs.len() && group_position(gs, tag) is None implies #[trigger] gs[k].0 != tag by {
            if k < gs.len() - 1 {
                assert(gs.drop_last()[k] == gs[k]);
            }
        }
    }
}

/// Every symbol appears on exactly one module page: the module groups have
/// distinct names, list each symbol of their module once, in order, and
/// cover every symbol.
pub proof fn law_module_groups_partition(syms: Seq<Symbol>)
    requires
        syms.len() <= usize::MAX,
    ensures
        groups_partition(syms, module_groups(syms)),
    decreases syms.len(),
{
    if syms.len() > 0 {
        let prev_syms = syms.drop_last();
        law_module_groups_partition(prev_syms);
        let prev = module_groups(prev_syms);
        let m = module_of(syms.last());
        let i = (syms.len() - 1) as usize;
        lemma_group_position(prev, m);
        lemma_group_position_none(prev, m);
        let g = module_groups(syms);
        assert(g == group_add(prev, m, i));
        assert(syms[i as int] == syms.last());
        assert forall|a: int, b: int| 0 <= a < b < g.len() implies #[trigger] g[a].0 != #[trigger] g[b].0 by {
            match group_position(prev, m) {
                Some(p) => {
                    assert(g[a].0 == prev[a].0 && g[b].0 == prev[b].0);
                },
                None => {
                    if b == prev.len() {
                        assert(g[a] == prev[a]);
                        assert(g[b].0 == m);
                        assert(prev[a].0 != m);
                    } else {
                        assert(g[a] == prev[a] && g[b] == prev[b]);
                    }
                },
            }
        }
        assert forall|a: int, j: int| 0 <= a < g.len() && 0 <= j < g[a].1.len() implies
            (#[trigger] g[a].1[j]) < syms.len() && module_of(syms[g[a].1[j] as int]) == g[a].0 by {
            match group_position(prev, m) {
                Some(p) => {
                    if a == p {
                        assert(g[a].1 == prev[p].1.push(i));
                        if j < prev[p].1.len() {
                            assert(g[a].1[j] == prev[p].1[j]);
                            assert(syms[prev[p].1[j] as int] == prev_syms[prev[p].1[j] as int]);
                        } else {
                            assert(g[a].1[j] == i);
                        }
                    } else {
                        assert(g[a] == prev[a]);
                        assert(syms[prev[a].1[j] as int] == prev_syms[prev[a].1[j] as int]);
                    }
                },
                None => {
                    if a < prev.len() {
                        assert(g[a] == prev[a]);
                        assert(syms[prev[a].1[j] as int] == prev_syms[prev[a].1[j] as int]);
                    } else {
                        assert(g[a] == (m, seq![i]));
                        assert(g[a].1[j] == i);
                    }
                },
            }
        }
        assert forall|a: int, j: int, k: int| 0 <= a < g.len() && 0 <= j < k < g[a].1.len() implies
            #[trigger] g[a].1[j] < #[trigger] g[a].1[k] by {
            match group_position(prev, m) {
                Some(p) => {
                    if a == p {
                        assert(g[a].1 == prev[p].1.push(i));
                        assert(g[a].1[j] == prev[p].1[j]);
                        if k == prev[p].1.len() {
                            assert(prev[p].1[j] < prev_syms.len());
                            assert(g[a].1[k] == i);
                        } else {
                            assert(g[a].1[k] == prev[p].1[k]);
                        }
                    } else {
                        assert(g[a] == prev[a]);
                    }
                },
                None => {
                    if a < prev.len() {
                        assert(g[a] == prev[a]);
                    }
                },
            }
        }
        assert forall|t: int| 0 <= t < syms.len() implies exists|a: int| 0 <= a < g.len() && #[trigger] g[a].0 == module_of(#[trigger] syms[t]) && g[a].1.contains(t as usize) by {
            match group_position(prev, m) {
                Some(p) => {
                    if t == syms.len() - 1 {
                        assert(g[p].1 == prev[p].1.push(i));
                        assert(g[p].1[prev[p].1.len() as int] == i);
                        assert(g[p].0 == module_of(syms[t]));
                    } else {
                        assert(syms[t] == prev_syms[t]);
                        let a = choose|a: int| 0 <= a < prev.len() && #[trigger] prev[a].0 == module_of(#[trigger] prev_syms[t]) && prev[a].1.contains(t as usize);
                        let q = choose|q: int| 0 <= q < prev[a].1.len() && prev[a].1[q] == t as usize;
                        if a == p {
                            assert(g[a].1[q] == t as usize);
                        } else {
                            assert(g[a] == prev[a]);
                        }
                        assert(g[a].1.contains(t as usize));
                    }
                },
                None => {
                    if t == syms.len() - 1 {
                        assert(g[prev.len() as int] == (m, seq![i]));
                        assert(g[prev.len() as int].1[0] == i);
                    } else {
                        assert(syms[t] == prev_syms[t]);
                        let a = choose|a: int| 0 <= a < prev.len() && #[trigger] prev[a].0 == module_of(#[trigger] prev_syms[t]) && prev[a].1.contains(t as usize);
                        assert(g[a] == prev[a]);
                    }
                },
            }
        }
    }
}

/// The wiki has the index and architecture pages, the API page exactly when
/// there are endpoints, and one page per module.
pub proof fn law_page_count(ir: RepoIR, g: GraphView, docs: Seq<(String, LlmDocResult)>, overview: Seq<char>, commit: Seq<char>, at: Seq<char>)
    requires
        all_pages(ir, g, docs, overview, commit, at) is Some,
    ensures
        all_pages(ir, g, docs, overview, commit, at).unwrap().len() == 2 + (if ir.endpoints@.len() > 0 { 1int } else { 0int }) + module_groups(ir.symbols@).len(),
        all_pages(ir, g, docs, overview, commit, at).unwrap()[0].path == "index.md"@,
        all_pages(ir, g, docs, overview, commit, at).unwrap()[1].path == "architecture.md"@,
{
    lemma_module_pages_len(ir.symbols@, module_groups(ir.symbols@), docs, commit, at);
}

proof fn lemma_module_pages_len(all: Seq<Symbol>, gs: Seq<(Seq<char>, Seq<usize>)>, docs: Seq<(String, LlmDocResult)>, commit: Seq<char>, at: Seq<char>)
    ensures
        module_pages(all, gs, docs, commit, at) matches Some(ps) ==> ps.len() == gs.len(),
    decreases gs.len(),
{
    if gs.len() > 0 {
        lemma_module_pages_len(all, gs.drop_last(), docs, commit, at);
    }
}

pub const INDEX_TEMPLATE: &'static str = r#"---
title: "Project Wiki"
generated_at: "{{ generated_at }}"
generator: "memoryos-wiki-gen"
source_repo: "{{ repo_root }}"
source_commit: "{{ source_commit }}"
---

# Project Wiki

{{ overview }}

## Statistics

| Metric | Value |
|--------|-------|
| Files | {{ file_count }} |
| Symbols | {{ symbol_count }} |
| Endpoints | {{ endpoint_count }} |

## Languages

{% for lang in languages %}
- **{{ lang.name }}**: {{ lang.count }} files
{% endfor %}

## Modules

{% for module in modules %}
- [{{ module }}](modules/{{ module }}.md)
{% endfor %}

{% if endpoint_count > 0 %}
## API Documentation

See [API Reference](api.md) for endpoint details.
{% endif %}

## Architecture

See [Architecture](architecture.md) for module dependency diagrams.

## Dependency Graph

```mermaid
{{ crate_diagram }}
```
"#;

pub const ARCHITECTURE_TEMPLATE: &'static str = r#"---
title: "Architecture"
generated_at: "{{ generated_at }}"
source_commit: "{{ source_commit }}"
---

# Architecture

## Module Dependencies

```mermaid
{{ module_diagram }}
```

## Key Traits & Interfaces

{% for trait in key_traits %}
### `{{ trait.name }}` ({{ trait.kind }})

{{ trait.description }}

{% endfor %}

## Class Diagram

```mermaid
{{ class_diagram }}
```
"#;

pub const API_TEMPLATE: &'static str = r#"---
title: "API Reference"
generated_at: "{{ generated_at }}"
source_commit: "{{ source_commit }}"
---

# API Reference

## Router Flow

```mermaid
{{ api_diagram }}
```

## Endpoints

| Method | Path | Handler | Auth | Description |
|--------|------|---------|------|-------------|
{% for ep in endpoints %}| `{{ ep.method }}` | `{{ ep.path }}` | `{{ ep.handler }}` | {{ ep.auth }} | {{ ep.description }} |
{% endfor %}

{% for ep in endpoints %}
### {{ ep.method }} {{ ep.path }}

{% if ep.description %}{{ ep.description }}{% endif %}

- **Handler**: `{{ ep.handler }}`
- **Auth**: {{ ep.auth }}

{% endfor %}
"#;

pub const MODULE_TEMPLATE: &'static str = r#"---
title: "Module: {{ module_name }}"
generated_at: "{{ generated_at }}"
source_commit: "{{ source_commit }}"
---

# Module: {{ module_name }}

## Symbols

| Name | Kind | Visibility | Description |
|------|------|------------|-------------|
{% for sym in symbols %}| `{{ sym.name }}` | {{ sym.kind }} | {{ sym.visibility }} | {{ sym.description }} |
{% endfor %}

{% for sym in symbols %}
### `{{ sym.name }}`

**Kind**: {{ sym.kind }} | **Visibility**: {{ sym.visibility }} | **File**: `{{ sym.file }}:{{ sym.line }}`

{% if sym.signature %}
```
{{ sym.signature }}
```
{% endif %}

{{ sym.detailed }}

---

{% endfor %}
"#;

} // verus!
