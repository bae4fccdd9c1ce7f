//! Route extraction from Spring request-mapping annotations.

use vstd::prelude::*;

use crate::endpoint::{auth_from_signals, classify, present_patterns, push_present_patterns};
use crate::ir::{
    endpoint_views, lemma_endpoint_views_push, strs, Annotation, AuthView, Endpoint,
    EndpointSource, EndpointSourceView, EndpointView, HttpMethod, Symbol, SymbolKind,
};
use crate::text::{
    append_vec, chars_of, contains, contains_vec, find, find_vec, lemma_find_from_bounds, lines,
    lines_vec, replace, replace_vec, single, starts_with, starts_with_vec, string_of, subvec,
    trim, trim_end_matches, trim_end_matches_vec, trim_vec, utf8_or_empty, utf8_or_empty_vec,
    views,
};

verus! {

pub struct SpringExtractor;

/// The text between the first two quotes, else the quoted text after `value =`, else empty.
pub open spec fn spec_annotation_path(annotation: Seq<char>) -> Seq<char> {
    let quoted = match find(annotation, seq!['"']) {
        Some(start) => {
            let rest = annotation.subrange(start + 1, annotation.len() as int);
            match find(rest, seq!['"']) {
                Some(end) => Some(rest.subrange(0, end)),
                None => None,
            }
        },
        None => None,
    };
    match quoted {
        Some(p) => p,
        None => match find(annotation, "value"@) {
            Some(start) => {
                let rest = annotation.subrange(start, annotation.len() as int);
                match find(rest, seq!['=']) {
                    Some(eq) => {
                        let after = trim(rest.subrange(eq + 1, rest.len() as int));
                        match find(after, seq!['"']) {
                            Some(s2) => {
                                let rest2 = after.subrange(s2 + 1, after.len() as int);
                                match find(rest2, seq!['"']) {
                                    Some(end) => rest2.subrange(0, end),
                                    None => Seq::empty(),
                                }
                            },
                            None => Seq::empty(),
                        }
                    },
                    None => Seq::empty(),
                }
            },
            None => Seq::empty(),
        },
    }
}

/// The path of the first line that starts (after trimming) with `@RequestMapping`, from line `i` on.
pub open spec fn class_mapping_from(ls: Seq<Seq<char>>, i: int) -> Seq<char>
    decreases ls.len() - i,
{
    if i < 0 || i >= ls.len() {
        Seq::empty()
    } else if starts_with(trim(ls[i]), "@RequestMapping"@) {
        spec_annotation_path(trim(ls[i]))
    } else {
        class_mapping_from(ls, i + 1)
    }
}

pub open spec fn spec_class_request_mapping(source: Seq<char>) -> Seq<char> {
    class_mapping_from(lines(source), 0)
}

pub open spec fn spec_request_method(annotation: Seq<char>) -> HttpMethod {
    if contains(annotation, "GET"@) { HttpMethod::Get }
    else if contains(annotation, "POST"@) { HttpMethod::Post }
    else if contains(annotation, "PUT"@) { HttpMethod::Put }
    else if contains(annotation, "DELETE"@) { HttpMethod::Delete }
    else if contains(annotation, "PATCH"@) { HttpMethod::Patch }
    else { HttpMethod::All }
}

/// Class path without trailing slashes, followed by the method path with a leading slash.
pub open spec fn spec_combine_paths(class_path: Seq<char>, method_path: Seq<char>) -> Seq<char> {
    let base = trim_end_matches(class_path, seq!['/']);
    let method = if starts_with(method_path, seq!['/']) { method_path } else { seq!['/'] + method_path };
    if base.len() == 0 { method } else { base + method }
}

pub open spec fn spring_normalize_path(path: Seq<char>) -> Seq<char> {
    replace(replace(path, "{"@, "{"@), "}"@, "}"@)
}

pub open spec fn auth_annotation_patterns() -> Seq<Seq<char>> {
    seq!["PreAuthorize"@, "Secured"@, "RolesAllowed"@, "WithMockUser"@]
}

pub open spec fn spring_source_patterns() -> Seq<Seq<char>> {
    seq!["SecurityConfig"@, "WebSecurityConfigurerAdapter"@, "@EnableWebSecurity"@, "httpSecurity"@]
}

/// For one annotation name: the name once per security pattern it contains.
pub open spec fn annotation_signals(name: Seq<char>, k: int) -> Seq<Seq<char>>
    decreases k,
{
    if k <= 0 {
        Seq::empty()
    } else {
        let rest = annotation_signals(name, k - 1);
        if contains(name, auth_annotation_patterns()[k - 1]) { rest.push(name) } else { rest }
    }
}

pub open spec fn annotations_signals(anns: Seq<Annotation>, n: int) -> Seq<Seq<char>>
    decreases n,
{
    if n <= 0 {
        Seq::empty()
    } else {
        annotations_signals(anns, n - 1) + annotation_signals(anns[n - 1].name@, 4)
    }
}

pub open spec fn spring_auth(source: Seq<char>, anns: Seq<Annotation>) -> AuthView {
    let signals = annotations_signals(anns, anns.len() as int) + present_patterns(source, spring_source_patterns());
    AuthView { signals, classification: classify(signals) }
}

pub open spec fn mapping_name(j: int) -> Seq<char> {
    if j == 0 { "GetMapping"@ } else if j == 1 { "PostMapping"@ } else if j == 2 { "PutMapping"@ }
    else if j == 3 { "DeleteMapping"@ } else { "PatchMapping"@ }
}

pub open spec fn mapping_method(j: int) -> HttpMethod {
    if j == 0 { HttpMethod::Get } else if j == 1 { HttpMethod::Post } else if j == 2 { HttpMethod::Put }
    else if j == 3 { HttpMethod::Delete } else { HttpMethod::Patch }
}

/// The first mapping annotation kind, from index `j` on, that the annotation name starts with.
pub open spec fn first_mapping_from(name: Seq<char>, j: int) -> Option<int>
    decreases 5 - j,
{
    if j < 0 || j >= 5 {
        None
    } else if starts_with(name, mapping_name(j)) {
        Some(j)
    } else {
        first_mapping_from(name, j + 1)
    }
}

pub open spec fn spring_endpoint(sym: Symbol, method: HttpMethod, path: Seq<char>, source: Seq<char>, file: Seq<char>) -> EndpointView {
    EndpointView {
        method,
        path: spring_normalize_path(path),
        handler: Some(sym.id),
        source: EndpointSourceView::CodeExtraction("spring"@),
        file,
        span: sym.span,
        request_type: None,
        response_type: None,
        auth: spring_auth(source, sym.annotations@),
        tags: Seq::empty(),
        doc: crate::ir::doc_view(sym.doc),
    }
}

/// Endpoints one annotation of a method symbol declares.
pub open spec fn annotation_endpoints(sym: Symbol, ann: Annotation, class_path: Seq<char>, source: Seq<char>, file: Seq<char>) -> Seq<EndpointView> {
    let name = ann.name@;
    let full = spec_combine_paths(class_path, spec_annotation_path(name));
    let mapped: Seq<EndpointView> = match first_mapping_from(name, 0) {
        Some(j) => seq![spring_endpoint(sym, mapping_method(j), full, source, file)],
        None => Seq::empty(),
    };
    let requested: Seq<EndpointView> = if starts_with(name, "RequestMapping"@) {
        seq![spring_endpoint(sym, spec_request_method(name), full, source, file)]
    } else {
        Seq::empty()
    };
    mapped + requested
}

pub open spec fn symbol_endpoints(sym: Symbol, n: int, class_path: Seq<char>, source: Seq<char>, file: Seq<char>) -> Seq<EndpointView>
    decreases n,
{
    if n <= 0 || sym.kind != SymbolKind::Method {
        Seq::empty()
    } else {
        symbol_endpoints(sym, n - 1, class_path, source, file) + annotation_endpoints(sym, sym.annotations@[n - 1], class_path, source, file)
    }
}

pub open spec fn spring_endpoints_upto(symbols: Seq<Symbol>, n: int, class_path: Seq<char>, source: Seq<char>, file: Seq<char>) -> Seq<EndpointView>
    decreases n,
{
    if n <= 0 {
        Seq::empty()
    } else {
        spring_endpoints_upto(symbols, n - 1, class_path, source, file)
            + symbol_endpoints(symbols[n - 1], symbols[n - 1].annotations@.len() as int, class_path, source, file)
    }
}

pub open spec fn spec_spring_endpoints(symbols: Seq<Symbol>, source: Seq<u8>, file: Seq<char>) -> Seq<EndpointView> {
    let text = utf8_or_empty(source);
    spring_endpoints_upto(symbols, symbols.len() as int, spec_class_request_mapping(text), text, file)
}

pub fn combine_paths(class_path: &Vec<char>, method_path: &Vec<char>) -> (r: Vec<char>)
    ensures
        r@ == spec_combine_paths(class_path@, method_path@),
{
    let slash = single('/');
    let base = trim_end_matches_vec(class_path, &slash);
    let method = if starts_with_vec(method_path, &slash) {
        crate::text::copy_vec(method_path)
    } else {
        let mut m = single('/');
        append_vec(&mut m, method_path);
        m
    };
    if base.len() == 0 {
        method
    } else {
        let mut out = base;
        append_vec(&mut out, &method);
        out
    }
}

fn normalize_path(path: &Vec<char>) -> (r: Vec<char>)
    ensures
        r@ == spring_normalize_path(path@),
{
    let open = chars_of("{");
    let close = chars_of("}");
    proof {
        reveal_strlit("{");
        reveal_strlit("}");
    }
    let a = replace_vec(path, &open, &open);
    replace_vec(&a, &close, &close)
}

/// Text between the first quote in `s` and the next one, if both exist.
fn quoted_after_first_quote(s: &Vec<char>) -> (r: Option<Vec<char>>)
    ensures
        match find(s@, seq!['"']) {
            Some(start) => {
                let rest = s@.subrange(start + 1, s@.len() as int);
                match find(rest, seq!['"']) {
                    Some(end) => r matches Some(v) && v@ == rest.subrange(0, end),
                    None => r is None,
                }
            },
            None => r is None,
        },
{
    let q = single('"');
    match find_vec(s, &q) {
        Some(start) => {
            proof { lemma_find_from_bounds(s@, q@, 0); }
            assert(crate::text::matches_at(s@, q@, start as int));
            assert(q@.len() == 1);
            assert(start + 1 <= s@.len());
            assert(start < s.len());
            let rest = subvec(s, start + 1, s.len());
            match find_vec(&rest, &q) {
                Some(end) => {
                    proof { lemma_find_from_bounds(rest@, q@, 0); }
                    Some(subvec(&rest, 0, end))
                },
                None => None,
            }
        },
        None => None,
    }
}

fn mapping_name_exec(j: usize) -> (r: &'static str)
    ensures
        r@ == mapping_name(j as int),
{
    if j == 0 { "GetMapping" } else if j == 1 { "PostMapping" } else if j == 2 { "PutMapping" }
    else if j == 3 { "DeleteMapping" } else { "PatchMapping" }
}

fn mapping_method_exec(j: usize) -> (r: HttpMethod)
    ensures
        r == mapping_method(j as int),
{
    if j == 0 { HttpMethod::Get } else if j == 1 { HttpMethod::Post } else if j == 2 { HttpMethod::Put }
    else if j == 3 { HttpMethod::Delete } else { HttpMethod::Patch }
}

fn first_mapping_exec(name: &Vec<char>) -> (r: Option<usize>)
    ensures
        crate::text::opt_int(r) == first_mapping_from(name@, 0),
        r matches Some(f) ==> f < 5,
{
    let mut j: usize = 0;
    while j < 5
        invariant
            j <= 5,
            first_mapping_from(name@, 0) == first_mapping_from(name@, j as int),
        decreases 5 - j,
    {
        let mn = chars_of(mapping_name_exec(j));
        if starts_with_vec(name, &mn) {
            return Some(j);
        }
        j = j + 1;
    }
    None
}

impl SpringExtractor {
    pub fn framework_name(&self) -> (r: &'static str)
        ensures
            r@ == "spring"@,
    {
        "spring"
    }

    fn extract_annotation_path(&self, annotation: &Vec<char>) -> (r: Vec<char>)
        ensures
            r@ == spec_annotation_path(annotation@),
    {
        match quoted_after_first_quote(annotation) {
            Some(p) => return p,
            None => {},
        }
        let value = chars_of("value");
        match find_vec(annotation, &value) {
            Some(start) => {
                proof { lemma_find_from_bounds(annotation@, value@, 0); }
                assert(crate::text::matches_at(annotation@, value@, start as int));
                let rest = subvec(annotation, start, annotation.len());
                let eqs = single('=');
                match find_vec(&rest, &eqs) {
                    Some(eq) => {
                        proof { lemma_find_from_bounds(rest@, eqs@, 0); }
                        let a = subvec(&rest, eq + 1, rest.len());
                        let after = trim_vec(&a);
                        match quoted_after_first_quote(&after) {
                            Some(p) => p,
                            None => Vec::new(),
                        }
                    },
                    None => Vec::new(),
                }
            },
            None => Vec::new(),
        }
    }

    fn extract_class_request_mapping(&self, source: &Vec<char>) -> (r: Vec<char>)
        ensures
            r@ == spec_class_request_mapping(source@),
    {
        let ls = lines_vec(source);
        let rm = chars_of("@RequestMapping");
        let mut i: usize = 0;
        while i < ls.len()
            invariant
                i <= ls@.len(),
                views(ls@) == lines(source@),
                rm@ == "@RequestMapping"@,
                class_mapping_from(views(ls@), 0) == class_mapping_from(views(ls@), i as int),
            decreases ls.len() - i,
        {
            let t = trim_vec(&ls[i]);
            assert(views(ls@)[i as int] == ls@[i as int]@);
            if starts_with_vec(&t, &rm) {
                return self.extract_annotation_path(&t);
            }
            i = i + 1;
        }
        Vec::new()
    }

    fn detect_request_method(&self, annotation: &Vec<char>) -> (r: HttpMethod)
        ensures
            r == spec_request_method(annotation@),
    {
        if contains_vec(annotation, &chars_of("GET")) {
            HttpMethod::Get
        } else if contains_vec(annotation, &chars_of("POST")) {
            HttpMethod::Post
        } else if contains_vec(annotation, &chars_of("PUT")) {
            HttpMethod::Put
        } else if contains_vec(annotation, &chars_of("DELETE")) {
            HttpMethod::Delete
        } else if contains_vec(annotation, &chars_of("PATCH")) {
            HttpMethod::Patch
        } else {
            HttpMethod::All
        }
    }

    fn detect_auth_signals(&self, source: &Vec<char>, annotations: &Vec<Annotation>) -> (r: crate::ir::AuthInfo)
        ensures
            r@ == spring_auth(source@, annotations@),
    {
        let mut signals: Vec<String> = Vec::new();
        let mut a: usize = 0;
        while a < annotations.len()
            invariant
                a <= annotations@.len(),
                strs(signals@) == annotations_signals(annotations@, a as int),
            decreases annotations.len() - a,
        {
            let name = chars_of(annotations[a].name.as_str());
            let mut k: usize = 0;
            let ghost base = strs(signals@);
            while k < 4
                invariant
                    k <= 4,
                    a < annotations@.len(),
                    name@ == annotations@[a as int].name@,
                    strs(signals@) == base + annotation_signals(annotations@[a as int].name@, k as int),
                decreases 4 - k,
            {
                let pat: &str = if k == 0 { "PreAuthorize" } else if k == 1 { "Secured" } else if k == 2 { "RolesAllowed" } else { "WithMockUser" };
                assert(pat@ == auth_annotation_patterns()[k as int]);
                let pv = chars_of(pat);
                if contains_vec(&name, &pv) {
                    let ghost before = signals@;
                    signals.push(annotations[a].name.clone());
                    proof { crate::ir::lemma_strs_push(before, signals@.last()); }
                }
                k = k + 1;
            }
            a = a + 1;
        }
        let mut pats: Vec<&str> = Vec::new();
        pats.push("SecurityConfig");
        pats.push("WebSecurityConfigurerAdapter");
        pats.push("@EnableWebSecurity");
        pats.push("httpSecurity");
        assert(Seq::new(pats@.len(), |i: int| pats@[i]@) =~= spring_source_patterns());
        push_present_patterns(&mut signals, source, &pats);
        auth_from_signals(signals)
    }

    fn make_endpoint(&self, sym: &Symbol, method: HttpMethod, path: &Vec<char>, source: &Vec<char>, file_path: &str) -> (r: Endpoint)
        ensures
            r@ == spring_endpoint(*sym, method, path@, source@, file_path@),
    {
        let norm = normalize_path(path);
        let auth = self.detect_auth_signals(source, &sym.annotations);
        let e = Endpoint {
            method,
            path: string_of(norm.as_slice()),
            handler: Some(sym.id.dup()),
            source: EndpointSource::CodeExtraction("spring".to_owned()),
            file: file_path.to_owned(),
            span: sym.span,
            request_type: None,
            response_type: None,
            auth,
            tags: Vec::new(),
            doc: match &sym.doc {
                Some(d) => Some(d.dup()),
                None => None,
            },
        };
        assert(e@.tags =~= Seq::<Seq<char>>::empty());
        e
    }

    /// The endpoints the mapping annotations on method symbols declare, in symbol order.
    pub fn extract(&self, symbols: &[Symbol], source: &[u8], file_path: &str) -> (r: crate::error::WikiGenResult<Vec<Endpoint>>)
        ensures
            r matches Ok(v) && endpoint_views(v@) == spec_spring_endpoints(symbols@, source@, file_path@),
    {
        let text = utf8_or_empty_vec(source);
        let class_path = self.extract_class_request_mapping(&text);
        let mut endpoints: Vec<Endpoint> = Vec::new();
        let mut s: usize = 0;
        while s < symbols.len()
            invariant
                s <= symbols@.len(),
                text@ == utf8_or_empty(source@),
                class_path@ == spec_class_request_mapping(text@),
                endpoint_views(endpoints@) == spring_endpoints_upto(symbols@, s as int, class_path@, text@, file_path@),
            decreases symbols.len() - s,
        {
            let sym = &symbols[s];
            let ghost base = endpoint_views(endpoints@);
            if matches!(sym.kind, SymbolKind::Method) {
                let mut a: usize = 0;
                while a < sym.annotations.len()
                    invariant
                        a <= sym.annotations@.len(),
                        s < symbols@.len(),
                        *sym == symbols@[s as int],
                        sym.kind == SymbolKind::Method,
                        endpoint_views(endpoints@) == base + symbol_endpoints(*sym, a as int, class_path@, text@, file_path@),
                    decreases sym.annotations.len() - a,
                {
                    let name = chars_of(sym.annotations[a].name.as_str());
                    let ghost before_ann = endpoint_views(endpoints@);
                    let mp = self.extract_annotation_path(&name);
                    let full = combine_paths(&class_path, &mp);
                    let found = first_mapping_exec(&name);
                    match found {
                        Some(f) => {
                            let e = self.make_endpoint(sym, mapping_method_exec(f), &full, &text, file_path);
                            let ghost b = endpoints@;
                            endpoints.push(e);
                            proof { lemma_endpoint_views_push(b, e); }
                        },
                        None => {},
                    }
                    let reqm = chars_of("RequestMapping");
                    if starts_with_vec(&name, &reqm) {
                        let m = self.detect_request_method(&name);
                        let e = self.make_endpoint(sym, m, &full, &text, file_path);
                        let ghost b = endpoints@;
                        endpoints.push(e);
                        proof { lemma_endpoint_views_push(b, e); }
                    }
                    assert(endpoint_views(endpoints@) =~= before_ann + annotation_endpoints(*sym, sym.annotations@[a as int], class_path@, text@, file_path@));
                    a = a + 1;
                }
                assert(sym.annotations@.len() == symbols@[s as int].annotations@.len());
            }
            s = s + 1;
        }
        Ok(endpoints)
    }
}


// ---------------------------------------------------------------------------
// Laws
// ---------------------------------------------------------------------------

/// The capitalised name of a method, as Spring's mapping annotations spell it.
pub open spec fn mapping_word(m: HttpMethod) -> Seq<char> {
    match m {
        HttpMethod::Get => "Get"@,
        HttpMethod::Post => "Post"@,
        HttpMethod::Put => "Put"@,
        HttpMethod::Delete => "Delete"@,
        HttpMethod::Patch => "Patch"@,
        HttpMethod::All => "Request"@,
    }
}

/// An annotation name spells a method: it opens with `<M>Mapping` for the
/// method's capitalised name `<M>`, or it opens with `RequestMapping` and
/// holds the method's upper-case name (or names none, for all methods).
pub open spec fn annotation_spells(name: Seq<char>, m: HttpMethod) -> bool {
    ||| m != HttpMethod::All && starts_with(name, mapping_word(m) + "Mapping"@)
    ||| starts_with(name, "RequestMapping"@) && (m == HttpMethod::All || contains(name, m.spec_name()))
}

proof fn lemma_mapping_name(j: int)
    requires
        0 <= j < 5,
    ensures
        mapping_name(j) == mapping_word(mapping_method(j)) + "Mapping"@,
        mapping_method(j) != HttpMethod::All,
{
    reveal_strlit("GetMapping");
    reveal_strlit("PostMapping");
    reveal_strlit("PutMapping");
    reveal_strlit("DeleteMapping");
    reveal_strlit("PatchMapping");
    reveal_strlit("Get");
    reveal_strlit("Post");
    reveal_strlit("Put");
    reveal_strlit("Delete");
    reveal_strlit("Patch");
    reveal_strlit("Mapping");
    assert(mapping_name(j) =~= mapping_word(mapping_method(j)) + "Mapping"@);
}

proof fn lemma_first_mapping(name: Seq<char>, j: int)
    requires
        0 <= j,
    ensures
        first_mapping_from(name, j) matches Some(x) ==> 0 <= x < 5 && starts_with(name, mapping_name(x)),
    decreases 5 - j,
{
    if j < 5 && !starts_with(name, mapping_name(j)) {
        lemma_first_mapping(name, j + 1);
    }
}

/// Every endpoint a Spring method annotation declares has the method the
/// annotation's name spells (see [`annotation_spells`]): `@DeleteMapping`
/// gives DELETE, `@RequestMapping(method = RequestMethod.PUT)` PUT, and so on.
pub proof fn law_spring_method(sym: Symbol, ann: Annotation, class_path: Seq<char>, source: Seq<char>, file: Seq<char>)
    ensures
        forall|k: int| 0 <= k < annotation_endpoints(sym, ann, class_path, source, file).len() ==> annotation_spells(
            ann.name@,
            (#[trigger] annotation_endpoints(sym, ann, class_path, source, file)[k]).method,
        ),
{
    let name = ann.name@;
    lemma_first_mapping(name, 0);
    let all = annotation_endpoints(sym, ann, class_path, source, file);
    let full = spec_combine_paths(class_path, spec_annotation_path(name));
    let mapped: Seq<EndpointView> = match first_mapping_from(name, 0) {
        Some(j) => seq![spring_endpoint(sym, mapping_method(j), full, source, file)],
        None => Seq::empty(),
    };
    let requested: Seq<EndpointView> = if starts_with(name, "RequestMapping"@) {
        seq![spring_endpoint(sym, spec_request_method(name), full, source, file)]
    } else {
        Seq::empty()
    };
    assert(all == mapped + requested);
    if first_mapping_from(name, 0) is Some {
        lemma_mapping_name(first_mapping_from(name, 0)->0);
    }
    assert forall|k: int| 0 <= k < all.len() implies annotation_spells(name, (#[trigger] all[k]).method) by {
        if k < mapped.len() {
            assert(all[k] == mapped[k]);
        } else {
            assert(all[k] == requested[k - mapped.len()]);
        }
    }
}

} // verus!
