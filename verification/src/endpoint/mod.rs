//! HTTP endpoint extraction from framework code and from API specs.

pub mod axum_extractor;
pub mod fastapi_extractor;
pub mod spec_discovery;
pub mod spring_extractor;

use vstd::prelude::*;

use crate::ir::{strs, AuthClassification, AuthInfo, AuthView, Endpoint, Symbol, SymbolKind};
use crate::paths::{extension, extension_vec};
use crate::text::{chars_of, contains, contains_vec, ends_with, ends_with_vec, eq_vec};

use self::axum_extractor::AxumExtractor;
use self::fastapi_extractor::FastApiExtractor;
use self::spring_extractor::SpringExtractor;

verus! {

/// The framework-specific extractor chosen for a source file.
pub enum EndpointExtractor {
    Axum(AxumExtractor),
    FastApi(FastApiExtractor),
    Spring(SpringExtractor),
}

/// Which extractor applies: by extension, then by a framework marker in the source.
pub open spec fn spec_detect_framework(source: Seq<char>, file_path: Seq<char>) -> Option<int> {
    let ext = match extension(file_path) {
        Some(e) => e,
        None => Seq::empty(),
    };
    if ext == "rs"@ {
        if contains(source, "axum::"@) || contains(source, "use axum"@) { Some(0) } else { None }
    } else if ext == "py"@ {
        if contains(source, "FastAPI"@) || contains(source, "fastapi"@) { Some(1) } else { None }
    } else if ext == "java"@ {
        if contains(source, "@RequestMapping"@) || contains(source, "@GetMapping"@) || contains(source, "@PostMapping"@)
            || contains(source, "@RestController"@) { Some(2) } else { None }
    } else {
        None
    }
}

impl EndpointExtractor {
    pub open spec fn spec_index(&self) -> int {
        match self {
            EndpointExtractor::Axum(_) => 0,
            EndpointExtractor::FastApi(_) => 1,
            EndpointExtractor::Spring(_) => 2,
        }
    }

    pub fn framework_name(&self) -> (r: &'static str)
        ensures
            r@ == (match self {
                EndpointExtractor::Axum(_) => "axum"@,
                EndpointExtractor::FastApi(_) => "fastapi"@,
                EndpointExtractor::Spring(_) => "spring"@,
            }),
    {
        match self {
            EndpointExtractor::Axum(x) => x.framework_name(),
            EndpointExtractor::FastApi(x) => x.framework_name(),
            EndpointExtractor::Spring(x) => x.framework_name(),
        }
    }

    /// The endpoints the chosen extractor finds in `source`.
    pub fn extract(&self, symbols: &[Symbol], source: &[u8], file_path: &str) -> (r: crate::error::WikiGenResult<Vec<Endpoint>>)
        requires
            self is Axum ==> axum_extractor::axum_scannable(source@),
        ensures
            r matches Ok(v) && crate::ir::endpoint_views(v@) == match self {
                EndpointExtractor::Axum(_) => axum_extractor::spec_axum_endpoints(symbols@, source@, file_path@),
                EndpointExtractor::FastApi(_) => fastapi_extractor::spec_fastapi_endpoints(symbols@, source@, file_path@),
                EndpointExtractor::Spring(_) => spring_extractor::spec_spring_endpoints(symbols@, source@, file_path@),
            },
    {
        match self {
            EndpointExtractor::Axum(x) => x.extract(symbols, source, file_path),
            EndpointExtractor::FastApi(x) => x.extract(symbols, source, file_path),
            EndpointExtractor::Spring(x) => x.extract(symbols, source, file_path),
        }
    }
}

/// The extractor for the framework the source file is written against, if any.
pub fn detect_framework(source: &str, file_path: &str) -> (r: Option<EndpointExtractor>)
    ensures
        match spec_detect_framework(source@, file_path@) {
            Some(k) => r matches Some(x) && x.spec_index() == k,
            None => r is None,
        },
{
    let p = chars_of(file_path);
    let ext: Vec<char> = match extension_vec(&p) {
        Some(e) => e,
        None => Vec::new(),
    };
    let s = chars_of(source);
    if eq_vec(&ext, &chars_of("rs")) {
        if contains_vec(&s, &chars_of("axum::")) || contains_vec(&s, &chars_of("use axum")) {
            Some(EndpointExtractor::Axum(AxumExtractor))
        } else {
            None
        }
    } else if eq_vec(&ext, &chars_of("py")) {
        if contains_vec(&s, &chars_of("FastAPI")) || contains_vec(&s, &chars_of("fastapi")) {
            Some(EndpointExtractor::FastApi(FastApiExtractor))
        } else {
            None
        }
    } else if eq_vec(&ext, &chars_of("java")) {
        if contains_vec(&s, &chars_of("@RequestMapping")) || contains_vec(&s, &chars_of("@GetMapping"))
            || contains_vec(&s, &chars_of("@PostMapping")) || contains_vec(&s, &chars_of("@RestController")) {
            Some(EndpointExtractor::Spring(SpringExtractor))
        } else {
            None
        }
    } else {
        None
    }
}

/// The first symbol at or after index `i` that is a function or method whose
/// qualified name ends with `name`.
pub open spec fn find_handler_from(symbols: Seq<Symbol>, name: Seq<char>, i: int) -> Option<int>
    decreases symbols.len() - i,
{
    if i < 0 || i >= symbols.len() {
        None
    } else if ends_with(symbols[i].qualified_name@, name) && (symbols[i].kind == SymbolKind::Function
        || symbols[i].kind == SymbolKind::Method) {
        Some(i)
    } else {
        find_handler_from(symbols, name, i + 1)
    }
}

pub open spec fn find_handler(symbols: Seq<Symbol>, name: Seq<char>) -> Option<int> {
    find_handler_from(symbols, name, 0)
}

pub fn find_handler_exec(symbols: &[Symbol], name: &Vec<char>) -> (r: Option<usize>)
    ensures
        crate::text::opt_int(r) == find_handler(symbols@, name@),
        r matches Some(k) ==> k < symbols@.len(),
{
    let mut i: usize = 0;
    while i < symbols.len()
        invariant
            i <= symbols@.len(),
            find_handler(symbols@, name@) == find_handler_from(symbols@, name@, i as int),
        decreases symbols.len() - i,
    {
        let q = chars_of(symbols[i].qualified_name.as_str());
        if ends_with_vec(&q, name) && (matches!(symbols[i].kind, SymbolKind::Function)
            || matches!(symbols[i].kind, SymbolKind::Method)) {
            return Some(i);
        }
        i = i + 1;
    }
    None
}

/// The patterns among `pats` that occur in `source`, in order.
pub open spec fn present_patterns(source: Seq<char>, pats: Seq<Seq<char>>) -> Seq<Seq<char>>
    decreases pats.len(),
{
    if pats.len() == 0 {
        Seq::empty()
    } else {
        let rest = present_patterns(source, pats.drop_last());
        if contains(source, pats.last()) {
            rest.push(pats.last())
        } else {
            rest
        }
    }
}

/// Required when any signal was found, unknown otherwise.
pub open spec fn classify(signals: Seq<Seq<char>>) -> AuthClassification {
    if signals.len() == 0 {
        AuthClassification::Unknown
    } else {
        AuthClassification::Required
    }
}

/// Appends to `signals` the patterns of `pats` that occur in `source`.
pub fn push_present_patterns(signals: &mut Vec<String>, source: &Vec<char>, pats: &Vec<&str>)
    ensures
        strs(final(signals)@) == strs(old(signals)@) + present_patterns(source@, Seq::new(pats@.len(), |i: int| pats@[i]@)),
{
    let ghost pv = Seq::new(pats@.len(), |i: int| pats@[i]@);
    let ghost start = strs(signals@);
    let mut k: usize = 0;
    while k < pats.len()
        invariant
            k <= pats@.len(),
            pv == Seq::new(pats@.len(), |i: int| pats@[i]@),
            strs(signals@) == start + present_patterns(source@, pv.take(k as int)),
        decreases pats.len() - k,
    {
        let p = chars_of(pats[k]);
        assert(pv.take(k + 1).drop_last() =~= pv.take(k as int));
        if contains_vec(source, &p) {
            let ghost before = signals@;
            signals.push(pats[k].to_owned());
            proof { crate::ir::lemma_strs_push(before, signals@.last()); }
            assert(strs(signals@) =~= start + present_patterns(source@, pv.take(k + 1)));
        }
        k = k + 1;
    }
    assert(pv.take(k as int) =~= pv);
}

/// The auth information made of the signals found, classified.
pub fn auth_from_signals(signals: Vec<String>) -> (r: AuthInfo)
    ensures
        r@ == (AuthView { signals: strs(signals@), classification: classify(strs(signals@)) }),
{
    let classification = if signals.len() == 0 {
        AuthClassification::Unknown
    } else {
        AuthClassification::Required
    };
    AuthInfo { signals, classification }
}

} // verus!
