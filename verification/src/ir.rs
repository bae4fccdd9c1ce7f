//! The intermediate representation of a parsed repository: files, symbols,
//! references between them, HTTP endpoints, manifests and API specs.
//!
//! Paths are held as strings (`/`-separated, as the scanners produce them).

use vstd::prelude::*;

use crate::text::{append_vec, chars_of, decimal, decimal_vec, eq_vec, lemma_decimal_digits, lemma_decimal_injective, string_of};

verus! {

#[derive(Debug, Clone)]
pub struct RepoIR {
    pub repo_root: String,
    pub files: Vec<FileIR>,
    pub symbols: Vec<Symbol>,
    pub references: Vec<Reference>,
    pub endpoints: Vec<Endpoint>,
    pub diagnostics: Vec<Diagnostic>,
    pub manifests: Vec<ManifestInfo>,
    pub specs: Vec<ApiSpec>,
}

/// Symbols declared in the file `path`, in declaration order.
pub open spec fn in_file(path: Seq<char>) -> spec_fn(Symbol) -> bool {
    |s: Symbol| s.file@ == path
}

/// Symbols whose visibility is public.
pub open spec fn is_public_symbol() -> spec_fn(Symbol) -> bool {
    |s: Symbol| s.visibility == Visibility::Public
}

/// The symbols a vector of references points at.
pub open spec fn derefs(v: Seq<&Symbol>) -> Seq<Symbol> {
    Seq::new(v.len(), |i: int| *v[i])
}

impl RepoIR {
    pub fn new(repo_root: String) -> (r: Self)
        ensures
            r.repo_root == repo_root,
            r.files@.len() == 0,
            r.symbols@.len() == 0,
            r.references@.len() == 0,
            r.endpoints@.len() == 0,
            r.diagnostics@.len() == 0,
            r.manifests@.len() == 0,
            r.specs@.len() == 0,
    {
        RepoIR {
            repo_root,
            files: Vec::new(),
            symbols: Vec::new(),
            references: Vec::new(),
            endpoints: Vec::new(),
            diagnostics: Vec::new(),
            manifests: Vec::new(),
            specs: Vec::new(),
        }
    }

    pub fn symbols_in_file(&self, path: &str) -> (r: Vec<&Symbol>)
        ensures
            derefs(r@) == self.symbols@.filter(in_file(path@)),
    {
        let mut r: Vec<&Symbol> = Vec::new();
        let mut i: usize = 0;
        let p = chars_of(path);
        while i < self.symbols.len()
            invariant
                i <= self.symbols.len(),
                p@ == path@,
                derefs(r@) == self.symbols@.take(i as int).filter(in_file(path@)),
            decreases self.symbols.len() - i,
        {
            proof { reveal_with_fuel(Seq::<Symbol>::filter, 1); }
            let f = chars_of(self.symbols[i].file.as_str());
            let ghost old_r = r@;
            if eq_vec(&f, &p) {
                r.push(&self.symbols[i]);
                assert(derefs(r@) =~= derefs(old_r).push(self.symbols@[i as int]));
            }
            assert(self.symbols@.take(i + 1).drop_last() =~= self.symbols@.take(i as int));
            i = i + 1;
        }
        assert(self.symbols@.take(i as int) =~= self.symbols@);
        r
    }

    pub fn public_symbols(&self) -> (r: Vec<&Symbol>)
        ensures
            derefs(r@) == self.symbols@.filter(is_public_symbol()),
    {
        let mut r: Vec<&Symbol> = Vec::new();
        let mut i: usize = 0;
        while i < self.symbols.len()
            invariant
                i <= self.symbols.len(),
                derefs(r@) == self.symbols@.take(i as int).filter(is_public_symbol()),
            decreases self.symbols.len() - i,
        {
            proof { reveal_with_fuel(Seq::<Symbol>::filter, 1); }
            let ghost old_r = r@;
            if matches!(self.symbols[i].visibility, Visibility::Public) {
                r.push(&self.symbols[i]);
                assert(derefs(r@) =~= derefs(old_r).push(self.symbols@[i as int]));
            }
            assert(self.symbols@.take(i + 1).drop_last() =~= self.symbols@.take(i as int));
            i = i + 1;
        }
        assert(self.symbols@.take(i as int) =~= self.symbols@);
        r
    }
}

#[derive(Debug, Clone)]
pub struct FileIR {
    pub path: String,
    pub language: Language,
    pub content_hash: String,
    pub parse_status: ParseStatus,
    pub byte_count: usize,
}

#[derive(Debug, Clone)]
pub struct Symbol {
    pub id: SymbolId,
    pub kind: SymbolKind,
    pub qualified_name: String,
    pub visibility: Visibility,
    pub file: String,
    pub span: Span,
    pub signature: Option<String>,
    pub doc: Option<Doc>,
    pub parent: Option<SymbolId>,
    pub children: Vec<SymbolId>,
    pub annotations: Vec<Annotation>,
    pub type_params: Vec<String>,
}

#[derive(Debug, Clone, PartialEq, Eq, Hash)]
pub struct SymbolId {
    pub file_path: String,
    pub start_byte: usize,
    pub end_byte: usize,
    pub kind: SymbolKind,
    pub qualified_name_cache: String,
}

/// `file:start:end:Kind`, the key by which a symbol is found again.
pub open spec fn spec_stable_key(file_path: Seq<char>, start: usize, end: usize, kind: SymbolKind) -> Seq<char> {
    file_path + seq![':'] + decimal(start as nat) + seq![':'] + decimal(end as nat) + seq![':'] + kind.spec_debug_name()
}

/// A text without a `:`.
pub open spec fn no_colon(s: Seq<char>) -> bool {
    forall|i: int| 0 <= i < s.len() ==> s[i] != ':'
}

/// Two texts joined by a `:` after which no `:` follows are split again at
/// their last `:`.
proof fn lemma_split_at_last_colon(a: Seq<char>, b: Seq<char>, c: Seq<char>, d: Seq<char>)
    requires
        a + seq![':'] + b == c + seq![':'] + d,
        no_colon(b),
        no_colon(d),
    ensures
        a == c,
        b == d,
{
    let x = a + seq![':'] + b;
    let y = c + seq![':'] + d;
    if b.len() < d.len() {
        let i = x.len() - b.len() - 1;
        assert(x[i] == ':');
        assert(y[i] == d[i - c.len() - 1]);
    } else if d.len() < b.len() {
        let i = y.len() - d.len() - 1;
        assert(y[i] == ':');
        assert(x[i] == b[i - a.len() - 1]);
    }
    assert(b =~= x.subrange(x.len() - b.len(), x.len() as int));
    assert(d =~= y.subrange(y.len() - d.len(), y.len() as int));
    assert(a =~= x.subrange(0, a.len() as int));
    assert(c =~= y.subrange(0, c.len() as int));
}

proof fn lemma_decimal_no_colon(n: nat)
    ensures
        no_colon(decimal(n)),
{
    lemma_decimal_digits(n);
    assert forall|i: int| 0 <= i < decimal(n).len() implies decimal(n)[i] != ':' by {
        assert('0' <= decimal(n)[i] <= '9');
    }
}

proof fn lemma_kind_name(k: SymbolKind)
    ensures
        no_colon(k.spec_debug_name()),
        k.spec_debug_name().len() >= 2,
{
    reveal_strlit("Function");
    reveal_strlit("Struct");
    reveal_strlit("Trait");
    reveal_strlit("Class");
    reveal_strlit("Interface");
    reveal_strlit("Method");
    reveal_strlit("Module");
    reveal_strlit("Enum");
    reveal_strlit("EnumVariant");
    reveal_strlit("Constant");
    reveal_strlit("TypeAlias");
    reveal_strlit("Component");
    reveal_strlit("Constructor");
    reveal_strlit("Field");
    let n = k.spec_debug_name();
    assert forall|i: int| 0 <= i < n.len() implies n[i] != ':' by {
        assert(i == 0 || i == 1 || i == 2 || i == 3 || i == 4 || i == 5 || i == 6 || i == 7 || i == 8 || i == 9
            || i == 10);
    }
}

proof fn lemma_kind_name_injective(a: SymbolKind, b: SymbolKind)
    requires
        a.spec_debug_name() == b.spec_debug_name(),
    ensures
        a == b,
{
    reveal_strlit("Function");
    reveal_strlit("Struct");
    reveal_strlit("Trait");
    reveal_strlit("Class");
    reveal_strlit("Interface");
    reveal_strlit("Method");
    reveal_strlit("Module");
    reveal_strlit("Enum");
    reveal_strlit("EnumVariant");
    reveal_strlit("Constant");
    reveal_strlit("TypeAlias");
    reveal_strlit("Component");
    reveal_strlit("Constructor");
    reveal_strlit("Field");
    let na = a.spec_debug_name();
    let nb = b.spec_debug_name();
    lemma_kind_name(a);
    assert(na.len() == nb.len() && na[0] == nb[0] && na[1] == nb[1]);
}

/// The key by which a symbol is found again tells symbols apart exactly by
/// file, start, end and kind: two ids have the same key if and only if these
/// four agree (their qualified names play no part).
pub proof fn law_stable_key_injective(a: SymbolId, b: SymbolId)
    ensures
        (a.spec_key() == b.spec_key()) <==> (a.file_path@ == b.file_path@ && a.start_byte == b.start_byte
            && a.end_byte == b.end_byte && a.kind == b.kind),
{
    if a.spec_key() == b.spec_key() {
        let c = seq![':'];
        let pa = a.file_path@ + c + decimal(a.start_byte as nat);
        let pb = b.file_path@ + c + decimal(b.start_byte as nat);
        let qa = pa + c + decimal(a.end_byte as nat);
        let qb = pb + c + decimal(b.end_byte as nat);
        lemma_kind_name(a.kind);
        lemma_kind_name(b.kind);
        lemma_decimal_no_colon(a.start_byte as nat);
        lemma_decimal_no_colon(b.start_byte as nat);
        lemma_decimal_no_colon(a.end_byte as nat);
        lemma_decimal_no_colon(b.end_byte as nat);
        lemma_split_at_last_colon(qa, a.kind.spec_debug_name(), qb, b.kind.spec_debug_name());
        lemma_split_at_last_colon(pa, decimal(a.end_byte as nat), pb, decimal(b.end_byte as nat));
        lemma_split_at_last_colon(a.file_path@, decimal(a.start_byte as nat), b.file_path@, decimal(b.start_byte as nat));
        lemma_kind_name_injective(a.kind, b.kind);
        lemma_decimal_injective(a.start_byte as nat, b.start_byte as nat);
        lemma_decimal_injective(a.end_byte as nat, b.end_byte as nat);
    }
}

impl SymbolId {
    pub fn new(
        file_path: String,
        start_byte: usize,
        end_byte: usize,
        kind: SymbolKind,
        qualified_name: String,
    ) -> (r: Self)
        ensures
            r.file_path == file_path,
            r.start_byte == start_byte,
            r.end_byte == end_byte,
            r.kind == kind,
            r.spec_qualified_name() == qualified_name@,
            r@.qualified_name == qualified_name@,
    {
        SymbolId { file_path, start_byte, end_byte, kind, qualified_name_cache: qualified_name }
    }

    pub open spec fn spec_qualified_name(&self) -> Seq<char> {
        self.qualified_name_cache@
    }

    pub fn qualified_name(&self) -> (r: &str)
        ensures
            r@ == self.spec_qualified_name(),
    {
        self.qualified_name_cache.as_str()
    }

    pub open spec fn spec_key(&self) -> Seq<char> {
        spec_stable_key(self.file_path@, self.start_byte, self.end_byte, self.kind)
    }

    pub fn stable_key(&self) -> (r: String)
        ensures
            r@ == self.spec_key(),
    {
        let mut out = chars_of(self.file_path.as_str());
        out.push(':');
        let a = decimal_vec(self.start_byte);
        append_vec(&mut out, &a);
        out.push(':');
        let b = decimal_vec(self.end_byte);
        append_vec(&mut out, &b);
        out.push(':');
        let k = chars_of(self.kind.debug_name());
        append_vec(&mut out, &k);
        assert(out@ =~= self.spec_key());
        string_of(out.as_slice())
    }

    /// The text `Display` shows: the qualified name.
    pub fn to_string(&self) -> (r: String)
        ensures
            r@ == self.spec_qualified_name(),
    {
        self.qualified_name_cache.clone()
    }

    pub fn dup(&self) -> (r: Self)
        ensures
            r == *self,
    {
        SymbolId {
            file_path: self.file_path.clone(),
            start_byte: self.start_byte,
            end_byte: self.end_byte,
            kind: self.kind,
            qualified_name_cache: self.qualified_name_cache.clone(),
        }
    }
}

/// The mathematical model of a [`SymbolId`].
pub struct SymbolIdView {
    pub file_path: Seq<char>,
    pub start_byte: usize,
    pub end_byte: usize,
    pub kind: SymbolKind,
    pub qualified_name: Seq<char>,
}

impl View for SymbolId {
    type V = SymbolIdView;

    open spec fn view(&self) -> SymbolIdView {
        SymbolIdView {
            file_path: self.file_path@,
            start_byte: self.start_byte,
            end_byte: self.end_byte,
            kind: self.kind,
            qualified_name: self.qualified_name_cache@,
        }
    }
}

/// The view of an optional symbol id.
pub open spec fn opt_id_view(p: Option<SymbolId>) -> Option<SymbolIdView> {
    match p {
        Some(x) => Some(x@),
        None => None,
    }
}

/// The mathematical model of an [`Annotation`].
pub struct AnnotationView {
    pub name: Seq<char>,
    pub arguments: Seq<Seq<char>>,
    pub span: Span,
}

impl View for Annotation {
    type V = AnnotationView;

    open spec fn view(&self) -> AnnotationView {
        AnnotationView { name: self.name@, arguments: strs(self.arguments@), span: self.span }
    }
}

pub open spec fn annotation_views(v: Seq<Annotation>) -> Seq<AnnotationView> {
    Seq::new(v.len(), |i: int| v[i]@)
}

/// The mathematical model of a [`Symbol`].
pub struct SymbolView {
    pub id: SymbolIdView,
    pub kind: SymbolKind,
    pub qualified_name: Seq<char>,
    pub visibility: Visibility,
    pub file: Seq<char>,
    pub span: Span,
    pub signature: Option<Seq<char>>,
    pub doc: Option<DocView>,
    pub parent: Option<SymbolIdView>,
    pub children: Seq<SymbolIdView>,
    pub annotations: Seq<AnnotationView>,
    pub type_params: Seq<Seq<char>>,
}

pub open spec fn id_views(v: Seq<SymbolId>) -> Seq<SymbolIdView> {
    Seq::new(v.len(), |i: int| v[i]@)
}

/// The view of an optional string.
pub open spec fn opt_str(s: Option<String>) -> Option<Seq<char>> {
    match s {
        Some(x) => Some(x@),
        None => None,
    }
}

impl View for Symbol {
    type V = SymbolView;

    open spec fn view(&self) -> SymbolView {
        SymbolView {
            id: self.id@,
            kind: self.kind,
            qualified_name: self.qualified_name@,
            visibility: self.visibility,
            file: self.file@,
            span: self.span,
            signature: opt_str(self.signature),
            doc: doc_view(self.doc),
            parent: opt_id_view(self.parent),
            children: id_views(self.children@),
            annotations: annotation_views(self.annotations@),
            type_params: strs(self.type_params@),
        }
    }
}

/// The views of a sequence of symbols.
pub open spec fn symbol_views(v: Seq<Symbol>) -> Seq<SymbolView> {
    Seq::new(v.len(), |i: int| v[i]@)
}

pub enum ReferenceTargetView {
    Resolved(SymbolIdView),
    Unresolved(Seq<char>),
}

/// The mathematical model of a [`Reference`].
pub struct ReferenceView {
    pub source: SymbolIdView,
    pub target: ReferenceTargetView,
    pub kind: ReferenceKind,
    pub span: Span,
}

impl View for Reference {
    type V = ReferenceView;

    open spec fn view(&self) -> ReferenceView {
        ReferenceView {
            source: self.source@,
            target: match self.target {
                ReferenceTarget::Resolved(id) => ReferenceTargetView::Resolved(id@),
                ReferenceTarget::Unresolved(s) => ReferenceTargetView::Unresolved(s@),
            },
            kind: self.kind,
            span: self.span,
        }
    }
}

/// The views of a sequence of references.
pub open spec fn reference_views(v: Seq<Reference>) -> Seq<ReferenceView> {
    Seq::new(v.len(), |i: int| v[i]@)
}

/// A copy of a vector of strings.
pub fn copy_strings(v: &Vec<String>) -> (r: Vec<String>)
    ensures
        r@ == v@,
{
    let mut r: Vec<String> = Vec::new();
    let mut k: usize = 0;
    while k < v.len()
        invariant
            k <= v.len(),
            r@ == v@.take(k as int),
        decreases v.len() - k,
    {
        r.push(v[k].clone());
        assert(r@ =~= v@.take(k + 1));
        k = k + 1;
    }
    assert(v@.take(k as int) =~= v@);
    r
}

impl Annotation {
    pub fn clone_annotation(&self) -> (r: Self)
        ensures
            r@ == self@,
    {
        Annotation { name: self.name.clone(), arguments: copy_strings(&self.arguments), span: self.span }
    }
}

impl Symbol {
    /// A copy with the same view.
    pub fn clone_symbol(&self) -> (r: Self)
        ensures
            r@ == self@,
    {
        let mut children: Vec<SymbolId> = Vec::new();
        let mut k: usize = 0;
        while k < self.children.len()
            invariant
                k <= self.children.len(),
                children@.len() == k,
                forall|j: int| 0 <= j < k ==> #[trigger] children@[j] == self.children@[j],
            decreases self.children.len() - k,
        {
            children.push(self.children[k].dup());
            k = k + 1;
        }
        assert(children@ =~= self.children@);
        let mut annotations: Vec<Annotation> = Vec::new();
        let mut k: usize = 0;
        while k < self.annotations.len()
            invariant
                k <= self.annotations.len(),
                annotations@.len() == k,
                forall|j: int| 0 <= j < k ==> #[trigger] annotations@[j]@ == self.annotations@[j]@,
            decreases self.annotations.len() - k,
        {
            annotations.push(self.annotations[k].clone_annotation());
            k = k + 1;
        }
        assert(annotation_views(annotations@) =~= annotation_views(self.annotations@));
        Symbol {
            id: self.id.dup(),
            kind: self.kind,
            qualified_name: self.qualified_name.clone(),
            visibility: self.visibility,
            file: self.file.clone(),
            span: self.span,
            signature: match &self.signature {
                Some(x) => Some(x.clone()),
                None => None,
            },
            doc: match &self.doc {
                Some(d) => Some(d.dup()),
                None => None,
            },
            parent: match &self.parent {
                Some(p) => Some(p.dup()),
                None => None,
            },
            children,
            annotations,
            type_params: copy_strings(&self.type_params),
        }
    }
}

impl Reference {
    /// A copy with the same view.
    pub fn clone_reference(&self) -> (r: Self)
        ensures
            r@ == self@,
    {
        Reference {
            source: self.source.dup(),
            target: match &self.target {
                ReferenceTarget::Resolved(id) => ReferenceTarget::Resolved(id.dup()),
                ReferenceTarget::Unresolved(s) => ReferenceTarget::Unresolved(s.clone()),
            },
            kind: self.kind,
            span: self.span,
        }
    }
}

pub proof fn lemma_symbol_views_push(v: Seq<Symbol>, e: Symbol)
    ensures
        symbol_views(v.push(e)) == symbol_views(v).push(e@),
{
    assert(symbol_views(v.push(e)) =~= symbol_views(v).push(e@));
}

pub proof fn lemma_reference_views_push(v: Seq<Reference>, e: Reference)
    ensures
        reference_views(v.push(e)) == reference_views(v).push(e@),
{
    assert(reference_views(v.push(e)) =~= reference_views(v).push(e@));
}

#[derive(Debug, Clone)]
pub struct Reference {
    pub source: SymbolId,
    pub target: ReferenceTarget,
    pub kind: ReferenceKind,
    pub span: Span,
}

#[derive(Debug, Clone)]
pub enum ReferenceTarget {
    Resolved(SymbolId),
    Unresolved(String),
}

#[derive(Debug, Clone, Copy, PartialEq, Eq, Hash, Structural)]
pub enum ReferenceKind {
    Import,
    Call,
    Extends,
    Implements,
    UsesType,
    FieldType,
    AnnotationUsage,
}

#[derive(Debug, Clone)]
pub struct Endpoint {
    pub method: HttpMethod,
    pub path: String,
    pub handler: Option<SymbolId>,
    pub source: EndpointSource,
    pub file: String,
    pub span: Span,
    pub request_type: Option<TypeRef>,
    pub response_type: Option<TypeRef>,
    pub auth: AuthInfo,
    pub tags: Vec<String>,
    pub doc: Option<Doc>,
}

/// The mathematical model of an [`Endpoint`]: strings as character sequences.
pub struct EndpointView {
    pub method: HttpMethod,
    pub path: Seq<char>,
    pub handler: Option<SymbolId>,
    pub source: EndpointSourceView,
    pub file: Seq<char>,
    pub span: Span,
    pub request_type: Option<TypeRef>,
    pub response_type: Option<TypeRef>,
    pub auth: AuthView,
    pub tags: Seq<Seq<char>>,
    pub doc: Option<DocView>,
}

pub struct DocView {
    pub raw: Seq<char>,
    pub format: DocFormat,
    pub summary: Option<Seq<char>>,
}

impl View for Doc {
    type V = DocView;

    open spec fn view(&self) -> DocView {
        DocView {
            raw: self.raw@,
            format: self.format,
            summary: match self.summary {
                Some(s) => Some(s@),
                None => None,
            },
        }
    }
}

/// The view of an optional documentation comment.
pub open spec fn doc_view(d: Option<Doc>) -> Option<DocView> {
    match d {
        Some(x) => Some(x@),
        None => None,
    }
}

pub enum EndpointSourceView {
    CodeExtraction(Seq<char>),
    Spec(SpecKind),
}

pub struct AuthView {
    pub signals: Seq<Seq<char>>,
    pub classification: AuthClassification,
}

/// The views of a vector of strings.
pub open spec fn strs(v: Seq<String>) -> Seq<Seq<char>> {
    Seq::new(v.len(), |i: int| v[i]@)
}

impl View for AuthInfo {
    type V = AuthView;

    open spec fn view(&self) -> AuthView {
        AuthView { signals: strs(self.signals@), classification: self.classification }
    }
}

impl View for EndpointSource {
    type V = EndpointSourceView;

    open spec fn view(&self) -> EndpointSourceView {
        match self {
            EndpointSource::CodeExtraction(s) => EndpointSourceView::CodeExtraction(s@),
            EndpointSource::Spec(k) => EndpointSourceView::Spec(*k),
        }
    }
}

impl View for Endpoint {
    type V = EndpointView;

    open spec fn view(&self) -> EndpointView {
        EndpointView {
            method: self.method,
            path: self.path@,
            handler: self.handler,
            source: self.source@,
            file: self.file@,
            span: self.span,
            request_type: self.request_type,
            response_type: self.response_type,
            auth: self.auth@,
            tags: strs(self.tags@),
            doc: doc_view(self.doc),
        }
    }
}

/// The views of a sequence of endpoints.
pub open spec fn endpoint_views(v: Seq<Endpoint>) -> Seq<EndpointView> {
    Seq::new(v.len(), |i: int| v[i]@)
}

pub proof fn lemma_endpoint_views_push(v: Seq<Endpoint>, e: Endpoint)
    ensures
        endpoint_views(v.push(e)) == endpoint_views(v).push(e@),
{
    assert(endpoint_views(v.push(e)) =~= endpoint_views(v).push(e@));
}

pub proof fn lemma_strs_push(v: Seq<String>, e: String)
    ensures
        strs(v.push(e)) == strs(v).push(e@),
{
    assert(strs(v.push(e)) =~= strs(v).push(e@));
}

#[derive(Debug, Clone, Copy, PartialEq, Eq, Hash, Structural)]
pub enum HttpMethod {
    Get,
    Post,
    Put,
    Delete,
    Patch,
    All,
}

impl HttpMethod {
    pub open spec fn spec_name(self) -> Seq<char> {
        match self {
            HttpMethod::Get => "GET"@,
            HttpMethod::Post => "POST"@,
            HttpMethod::Put => "PUT"@,
            HttpMethod::Delete => "DELETE"@,
            HttpMethod::Patch => "PATCH"@,
            HttpMethod::All => "ALL"@,
        }
    }

    pub fn name(&self) -> (r: &'static str)
        ensures
            r@ == self.spec_name(),
    {
        match self {
            HttpMethod::Get => "GET",
            HttpMethod::Post => "POST",
            HttpMethod::Put => "PUT",
            HttpMethod::Delete => "DELETE",
            HttpMethod::Patch => "PATCH",
            HttpMethod::All => "ALL",
        }
    }

    /// The text `Display` shows: the upper-case method name.
    pub fn to_string(&self) -> (r: String)
        ensures
            r@ == self.spec_name(),
    {
        self.name().to_owned()
    }
}

#[derive(Debug, Clone)]
pub enum EndpointSource {
    CodeExtraction(String),
    Spec(SpecKind),
}

#[derive(Debug, Clone, Copy, PartialEq, Eq, Hash, Structural)]
pub enum SpecKind {
    OpenApi,
    Proto,
    Swagger,
}

#[derive(Debug, Clone)]
pub enum TypeRef {
    SymbolRef(SymbolId),
    Named(String),
}

#[derive(Debug, Clone)]
pub struct AuthInfo {
    pub signals: Vec<String>,
    pub classification: AuthClassification,
}

impl AuthInfo {
    /// No signals, classification unknown (what `Default` gives).
    pub fn default() -> (r: Self)
        ensures
            r.signals@.len() == 0,
            r.classification == AuthClassification::Unknown,
    {
        AuthInfo { signals: Vec::new(), classification: AuthClassification::Unknown }
    }
}

#[derive(Debug, Clone, Copy, PartialEq, Eq, Structural)]
pub enum AuthClassification {
    Required,
    Optional,
    Unknown,
}

#[derive(Debug, Clone)]
pub struct Doc {
    pub raw: String,
    pub format: DocFormat,
    pub summary: Option<String>,
}

impl Doc {
    pub fn dup(&self) -> (r: Self)
        ensures
            r == *self,
    {
        Doc {
            raw: self.raw.clone(),
            format: self.format,
            summary: match &self.summary {
                Some(s) => Some(s.clone()),
                None => None,
            },
        }
    }
}

#[derive(Debug, Clone, Copy, PartialEq, Eq, Structural)]
pub enum DocFormat {
    Markdown,
    JavaDoc,
    ReST,
    JSDoc,
    RustDoc,
}

#[derive(Debug, Clone, Copy, PartialEq, Eq, Hash, Structural)]
pub struct Span {
    pub start_byte: usize,
    pub end_byte: usize,
    pub start_line: usize,
    pub end_line: usize,
}

impl Span {
    pub fn new(start_byte: usize, end_byte: usize, start_line: usize, end_line: usize) -> (r: Self)
        ensures
            r.start_byte == start_byte,
            r.end_byte == end_byte,
            r.start_line == start_line,
            r.end_line == end_line,
    {
        Span { start_byte, end_byte, start_line, end_line }
    }

    /// The span moved by `byte_offset` bytes and `line_offset` lines.
    pub fn offset(&self, byte_offset: usize, line_offset: usize) -> (r: Self)
        requires
            self.start_byte + byte_offset <= usize::MAX,
            self.end_byte + byte_offset <= usize::MAX,
            self.start_line + line_offset <= usize::MAX,
            self.end_line + line_offset <= usize::MAX,
        ensures
            r.start_byte == self.start_byte + byte_offset,
            r.end_byte == self.end_byte + byte_offset,
            r.start_line == self.start_line + line_offset,
            r.end_line == self.end_line + line_offset,
    {
        Span {
            start_byte: self.start_byte + byte_offset,
            end_byte: self.end_byte + byte_offset,
            start_line: self.start_line + line_offset,
            end_line: self.end_line + line_offset,
        }
    }
}

#[derive(Debug, Clone, Copy, PartialEq, Eq, Hash, Structural)]
pub enum SymbolKind {
    Function,
    Struct,
    Trait,
    Class,
    Interface,
    Method,
    Module,
    Enum,
    EnumVariant,
    Constant,
    TypeAlias,
    Component,
    Constructor,
    Field,
}

impl SymbolKind {
    /// The lower-case name `Display` shows.
    pub open spec fn spec_name(self) -> Seq<char> {
        match self {
            SymbolKind::Function => "function"@,
            SymbolKind::Struct => "struct"@,
            SymbolKind::Trait => "trait"@,
            SymbolKind::Class => "class"@,
            SymbolKind::Interface => "interface"@,
            SymbolKind::Method => "method"@,
            SymbolKind::Module => "module"@,
            SymbolKind::Enum => "enum"@,
            SymbolKind::EnumVariant => "enum_variant"@,
            SymbolKind::Constant => "constant"@,
            SymbolKind::TypeAlias => "type_alias"@,
            SymbolKind::Component => "component"@,
            SymbolKind::Constructor => "constructor"@,
            SymbolKind::Field => "field"@,
        }
    }

    /// The variant name `Debug` shows.
    pub open spec fn spec_debug_name(self) -> Seq<char> {
        match self {
            SymbolKind::Function => "Function"@,
            SymbolKind::Struct => "Struct"@,
            SymbolKind::Trait => "Trait"@,
            SymbolKind::Class => "Class"@,
            SymbolKind::Interface => "Interface"@,
            SymbolKind::Method => "Method"@,
            SymbolKind::Module => "Module"@,
            SymbolKind::Enum => "Enum"@,
            SymbolKind::EnumVariant => "EnumVariant"@,
            SymbolKind::Constant => "Constant"@,
            SymbolKind::TypeAlias => "TypeAlias"@,
            SymbolKind::Component => "Component"@,
            SymbolKind::Constructor => "Constructor"@,
            SymbolKind::Field => "Field"@,
        }
    }

    pub fn name(&self) -> (r: &'static str)
        ensures
            r@ == self.spec_name(),
    {
        match self {
            SymbolKind::Function => "function",
            SymbolKind::Struct => "struct",
            SymbolKind::Trait => "trait",
            SymbolKind::Class => "class",
            SymbolKind::Interface => "interface",
            SymbolKind::Method => "method",
            SymbolKind::Module => "module",
            SymbolKind::Enum => "enum",
            SymbolKind::EnumVariant => "enum_variant",
            SymbolKind::Constant => "constant",
            SymbolKind::TypeAlias => "type_alias",
            SymbolKind::Component => "component",
            SymbolKind::Constructor => "constructor",
            SymbolKind::Field => "field",
        }
    }

    pub fn debug_name(&self) -> (r: &'static str)
        ensures
            r@ == self.spec_debug_name(),
    {
        match self {
            SymbolKind::Function => "Function",
            SymbolKind::Struct => "Struct",
            SymbolKind::Trait => "Trait",
            SymbolKind::Class => "Class",
            SymbolKind::Interface => "Interface",
            SymbolKind::Method => "Method",
            SymbolKind::Module => "Module",
            SymbolKind::Enum => "Enum",
            SymbolKind::EnumVariant => "EnumVariant",
            SymbolKind::Constant => "Constant",
            SymbolKind::TypeAlias => "TypeAlias",
            SymbolKind::Component => "Component",
            SymbolKind::Constructor => "Constructor",
            SymbolKind::Field => "Field",
        }
    }

    /// The text `Display` shows.
    pub fn to_string(&self) -> (r: String)
        ensures
            r@ == self.spec_name(),
    {
        self.name().to_owned()
    }
}

#[derive(Debug, Clone, Copy, PartialEq, Eq, Structural)]
pub enum Visibility {
    Public,
    Private,
    Protected,
    Internal,
}

impl Visibility {
    /// The variant name `Debug` shows.
    pub open spec fn spec_debug_name(self) -> Seq<char> {
        match self {
            Visibility::Public => "Public"@,
            Visibility::Private => "Private"@,
            Visibility::Protected => "Protected"@,
            Visibility::Internal => "Internal"@,
        }
    }

    pub fn debug_name(&self) -> (r: &'static str)
        ensures
            r@ == self.spec_debug_name(),
    {
        match self {
            Visibility::Public => "Public",
            Visibility::Private => "Private",
            Visibility::Protected => "Protected",
            Visibility::Internal => "Internal",
        }
    }
}

#[derive(Debug, Clone, Copy, PartialEq, Eq, Hash, Structural)]
pub enum Language {
    Rust,
    Python,
    Java,
    TypeScript,
    JavaScript,
    Vue,
    Html,
}

impl Language {
    pub open spec fn spec_name(self) -> Seq<char> {
        match self {
            Language::Rust => "Rust"@,
            Language::Python => "Python"@,
            Language::Java => "Java"@,
            Language::TypeScript => "TypeScript"@,
            Language::JavaScript => "JavaScript"@,
            Language::Vue => "Vue"@,
            Language::Html => "HTML"@,
        }
    }

    pub fn name(&self) -> (r: &'static str)
        ensures
            r@ == self.spec_name(),
    {
        match self {
            Language::Rust => "Rust",
            Language::Python => "Python",
            Language::Java => "Java",
            Language::TypeScript => "TypeScript",
            Language::JavaScript => "JavaScript",
            Language::Vue => "Vue",
            Language::Html => "HTML",
        }
    }

    /// The text `Display` shows.
    pub fn to_string(&self) -> (r: String)
        ensures
            r@ == self.spec_name(),
    {
        self.name().to_owned()
    }
}

#[derive(Debug, Clone, Copy, PartialEq, Eq, Structural)]
pub enum ParseStatus {
    Success,
    PartialSuccess,
    Failed,
}

#[derive(Debug, Clone)]
pub struct Diagnostic {
    pub file: String,
    pub severity: DiagSeverity,
    pub message: String,
    pub span: Option<Span>,
    pub fallback_data: Option<FallbackData>,
}

/// The mathematical model of a [`Diagnostic`].
pub struct DiagnosticView {
    pub file: Seq<char>,
    pub severity: DiagSeverity,
    pub message: Seq<char>,
    pub span: Option<Span>,
    pub fallback: Option<Seq<Seq<char>>>,
}

impl View for Diagnostic {
    type V = DiagnosticView;

    open spec fn view(&self) -> DiagnosticView {
        DiagnosticView {
            file: self.file@,
            severity: self.severity,
            message: self.message@,
            span: self.span,
            fallback: match self.fallback_data {
                Some(f) => Some(strs(f.import_lines@)),
                None => None,
            },
        }
    }
}

pub open spec fn diagnostic_views(v: Seq<Diagnostic>) -> Seq<DiagnosticView> {
    Seq::new(v.len(), |i: int| v[i]@)
}

#[derive(Debug, Clone, Copy, PartialEq, Eq, Structural)]
pub enum DiagSeverity {
    Error,
    Warning,
    Info,
}

#[derive(Debug, Clone)]
pub struct FallbackData {
    pub import_lines: Vec<String>,
}

#[derive(Debug, Clone)]
pub struct Annotation {
    pub name: String,
    pub arguments: Vec<String>,
    pub span: Span,
}

#[derive(Debug, Clone)]
pub struct ManifestInfo {
    pub ecosystem: Ecosystem,
    pub source_file: String,
    pub dependencies: Vec<Dependency>,
}

#[derive(Debug, Clone)]
pub struct Dependency {
    pub name: String,
    pub version_req: Option<String>,
    pub scope: DependencyScope,
    pub source_file: String,
    pub ecosystem: Ecosystem,
}

#[derive(Debug, Clone, Copy, PartialEq, Eq, Hash, Structural)]
pub enum DependencyScope {
    Runtime,
    Dev,
    Build,
    Optional,
}

#[derive(Debug, Clone, Copy, PartialEq, Eq, Hash, Structural)]
pub enum Ecosystem {
    Cargo,
    Maven,
    Npm,
    Pip,
    Gradle,
}

impl Ecosystem {
    pub open spec fn spec_name(self) -> Seq<char> {
        match self {
            Ecosystem::Cargo => "Cargo"@,
            Ecosystem::Maven => "Maven"@,
            Ecosystem::Npm => "npm"@,
            Ecosystem::Pip => "pip"@,
            Ecosystem::Gradle => "Gradle"@,
        }
    }

    /// The text `Display` shows.
    pub fn to_string(&self) -> (r: String)
        ensures
            r@ == self.spec_name(),
    {
        let s: &str = match self {
            Ecosystem::Cargo => "Cargo",
            Ecosystem::Maven => "Maven",
            Ecosystem::Npm => "npm",
            Ecosystem::Pip => "pip",
            Ecosystem::Gradle => "Gradle",
        };
        s.to_owned()
    }
}

#[derive(Debug, Clone)]
pub struct ApiSpec {
    pub kind: SpecKind,
    pub file: String,
    pub endpoints: Vec<Endpoint>,
}

} // verus!
