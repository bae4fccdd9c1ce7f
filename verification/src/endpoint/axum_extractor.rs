//! Route extraction from axum router code, one source line at a time.

use vstd::prelude::*;

use crate::endpoint::{
    auth_from_signals, classify, find_handler, find_handler_exec, present_patterns,
    push_present_patterns,
};
use crate::ir::{
    endpoint_views, lemma_endpoint_views_push, AuthView, Endpoint, EndpointSource,
    EndpointSourceView, EndpointView, HttpMethod, Span, Symbol,
};
use crate::text::{
    append_vec, chars_of, contains, contains_vec, find, find_vec, lemma_find_from_bounds, lines,
    lines_vec, replace, replace_vec, rfind, rfind_vec, single, split_first, split_first_vec,
    string_of, subvec, trim, trim_vec, utf8_len, utf8_len_exec, utf8_or_empty, utf8_or_empty_vec,
    views,
};

verus! {

pub struct AxumExtractor;

/// Outcome of reading one trimmed line as a route declaration.
pub enum RouteLine {
    Found(HttpMethod, Seq<char>, Seq<char>),
    NotFound,
    /// The line makes the byte slicing of the scan fail.
    Panics,
}

/// The method helpers tried, in order.
pub open spec fn method_prefix(k: int) -> Seq<char> {
    if k == 0 { "get("@ } else if k == 1 { "post("@ } else if k == 2 { "put("@ } else if k == 3 { "delete("@ } else { "patch("@ }
}

pub open spec fn method_of(k: int) -> HttpMethod {
    if k == 0 { HttpMethod::Get } else if k == 1 { HttpMethod::Post } else if k == 2 { HttpMethod::Put }
    else if k == 3 { HttpMethod::Delete } else { HttpMethod::Patch }
}

/// The path literal just before `idx`: the text between the last two quotes, else `/`.
pub open spec fn spec_find_route_path(line: Seq<char>, idx: int) -> Seq<char> {
    let before = line.subrange(0, idx);
    match rfind(before, seq!['"']) {
        Some(qe) => match rfind(before.subrange(0, qe), seq!['"']) {
            Some(qs) => before.subrange(qs + 1, qe),
            None => "/"@,
        },
        None => "/"@,
    }
}

/// Where the text starts two bytes after character index `m`, when that is a
/// character boundary inside the line.
pub open spec fn skip_two_bytes(line: Seq<char>, m: int) -> Option<int> {
    if 0 <= m < line.len() && utf8_len(line[m]) == 2 {
        Some(m + 1)
    } else if 0 <= m && m + 1 < line.len() && utf8_len(line[m]) == 1 && utf8_len(line[m + 1]) == 1 {
        Some(m + 2)
    } else {
        None
    }
}

/// The `.route("path", handler)` form.
pub open spec fn route_call(line: Seq<char>) -> RouteLine {
    if contains(line, ".route("@) {
        match find(line, ".route(\""@) {
            Some(start) => {
                let after = line.subrange(start + ".route(\""@.len(), line.len() as int);
                match find(after, seq!['"']) {
                    Some(end) => {
                        let path = after.subrange(0, end);
                        let tail = after.subrange(end, after.len() as int);
                        match find(tail, seq![',']) {
                            Some(hs) => {
                                let part = after.subrange(end + hs + 1, after.len() as int);
                                match find(part, seq![')']) {
                                    Some(he) => RouteLine::Found(HttpMethod::All, path, trim(part.subrange(0, he))),
                                    None => RouteLine::NotFound,
                                }
                            },
                            None => RouteLine::NotFound,
                        }
                    },
                    None => RouteLine::NotFound,
                }
            },
            None => RouteLine::NotFound,
        }
    } else {
        RouteLine::NotFound
    }
}

/// Reading a trimmed line as a route, trying the method helpers from index `k` on.
pub open spec fn route_scan(line: Seq<char>, k: int) -> RouteLine
    decreases 5 - k,
{
    if k >= 5 || k < 0 {
        route_call(line)
    } else {
        let prefix = method_prefix(k);
        let dotted = seq!['.'] + prefix;
        match find(line, dotted) {
            Some(idx) => {
                let after = line.subrange(idx + dotted.len(), line.len() as int);
                RouteLine::Found(method_of(k), spec_find_route_path(line, idx), trim(split_first(after, seq![')'])))
            },
            None => {
                let qualified = "method_router::"@ + prefix;
                match find(line, qualified) {
                    Some(idx) => match skip_two_bytes(line, idx + qualified.len()) {
                        Some(a) => RouteLine::Found(
                            method_of(k),
                            "/"@,
                            trim(split_first(line.subrange(a, line.len() as int), seq![')'])),
                        ),
                        None => RouteLine::Panics,
                    },
                    None => route_scan(line, k + 1),
                }
            },
        }
    }
}

pub open spec fn spec_parse_route_line(line: Seq<char>) -> RouteLine {
    route_scan(line, 0)
}

/// The auth patterns searched for in the whole source.
pub open spec fn axum_auth_patterns() -> Seq<Seq<char>> {
    seq![
        "auth_middleware"@,
        "require_auth"@,
        "Authorization"@,
        "Bearer"@,
        "jwt"@,
        "rbac"@,
        "Permission"@,
        "authenticate"@,
    ]
}

pub open spec fn axum_auth(source: Seq<char>) -> AuthView {
    let signals = present_patterns(source, axum_auth_patterns());
    AuthView { signals, classification: classify(signals) }
}

/// Path parameters in `:name` or `<name>` form rewritten to `{name}`.
pub open spec fn axum_normalize_path(path: Seq<char>) -> Seq<char> {
    replace(replace(replace(path, ":id"@, "{id}"@), ":user_id"@, "{user_id}"@), "<id>"@, "{id}"@)
}

/// The endpoint a source line declares, if any (line numbers start at 1).
pub open spec fn axum_line_endpoint(
    symbols: Seq<Symbol>,
    source: Seq<char>,
    file: Seq<char>,
    line_no: int,
    line: Seq<char>,
) -> Option<EndpointView> {
    match spec_parse_route_line(trim(line)) {
        RouteLine::Found(method, path, handler_name) => {
            let h = find_handler(symbols, handler_name);
            Some(EndpointView {
                method,
                path: axum_normalize_path(path),
                handler: match h { Some(k) => Some(symbols[k].id), None => None },
                source: EndpointSourceView::CodeExtraction("axum"@),
                file,
                span: Span { start_byte: 0, end_byte: 0, start_line: (line_no + 1) as usize, end_line: (line_no + 1) as usize },
                request_type: None,
                response_type: None,
                auth: axum_auth(source),
                tags: Seq::empty(),
                doc: match h { Some(k) => crate::ir::doc_view(symbols[k].doc), None => None },
            })
        },
        _ => None,
    }
}

/// The endpoints declared by the first `n` lines.
pub open spec fn axum_endpoints_upto(
    symbols: Seq<Symbol>,
    source: Seq<char>,
    file: Seq<char>,
    ls: Seq<Seq<char>>,
    n: int,
) -> Seq<EndpointView>
    decreases n,
{
    if n <= 0 {
        Seq::empty()
    } else {
        let rest = axum_endpoints_upto(symbols, source, file, ls, n - 1);
        match axum_line_endpoint(symbols, source, file, n - 1, ls[n - 1]) {
            Some(e) => rest.push(e),
            None => rest,
        }
    }
}

/// No line of the source makes the route scan fail.
pub open spec fn axum_scannable(source: Seq<u8>) -> bool {
    let ls = lines(utf8_or_empty(source));
    forall|i: int| 0 <= i < ls.len() ==> !(#[trigger] spec_parse_route_line(trim(ls[i])) is Panics)
}

pub open spec fn spec_axum_endpoints(symbols: Seq<Symbol>, source: Seq<u8>, file: Seq<char>) -> Seq<EndpointView> {
    let text = utf8_or_empty(source);
    let ls = lines(text);
    axum_endpoints_upto(symbols, text, file, ls, ls.len() as int)
}

fn method_prefix_exec(k: usize) -> (r: &'static str)
    requires
        k < 5,
    ensures
        r@ == method_prefix(k as int),
{
    if k == 0 { "get(" } else if k == 1 { "post(" } else if k == 2 { "put(" } else if k == 3 { "delete(" } else { "patch(" }
}

fn method_of_exec(k: usize) -> (r: HttpMethod)
    requires
        k < 5,
    ensures
        r == method_of(k as int),
{
    if k == 0 { HttpMethod::Get } else if k == 1 { HttpMethod::Post } else if k == 2 { HttpMethod::Put }
    else if k == 3 { HttpMethod::Delete } else { HttpMethod::Patch }
}

fn skip_two_bytes_exec(line: &Vec<char>, m: usize) -> (r: Option<usize>)
    ensures
        crate::text::opt_int(r) == skip_two_bytes(line@, m as int),
{
    if m < line.len() && utf8_len_exec(line[m]) == 2 {
        Some(m + 1)
    } else if m < line.len() && line.len() - m > 1 && utf8_len_exec(line[m]) == 1 && utf8_len_exec(line[m + 1]) == 1 {
        Some(m + 2)
    } else {
        None
    }
}

fn route_call_exec(line: &Vec<char>) -> (r: Option<(HttpMethod, Vec<char>, Vec<char>)>)
    ensures
        match route_call(line@) {
            RouteLine::Found(m, p, h) => r matches Some((m2, p2, h2)) && m2 == m && p2@ == p && h2@ == h,
            _ => r is None,
        },
{
    let route = chars_of(".route(");
    if !contains_vec(line, &route) {
        return None;
    }
    let route_q = chars_of(".route(\"");
    let fr = find_vec(line, &route_q);
    if fr.is_none() {
        return None;
    }
    let start = fr.unwrap();
    proof { lemma_find_from_bounds(line@, route_q@, 0); }
    assert(crate::text::matches_at(line@, route_q@, start as int));
    assert(start + route_q@.len() <= line@.len());
    assert(start + route_q.len() <= line.len());
    let after = subvec(line, start + route_q.len(), line.len());
    let quote = single('"');
    let end = match find_vec(&after, &quote) {
        Some(e) => e,
        None => return None,
    };
    proof { lemma_find_from_bounds(after@, quote@, 0); }
    let path = subvec(&after, 0, end);
    let tail = subvec(&after, end, after.len());
    let comma = single(',');
    let hs = match find_vec(&tail, &comma) {
        Some(h) => h,
        None => return None,
    };
    proof { lemma_find_from_bounds(tail@, comma@, 0); }
    let part = subvec(&after, end + hs + 1, after.len());
    let close = single(')');
    let he = match find_vec(&part, &close) {
        Some(h) => h,
        None => return None,
    };
    proof { lemma_find_from_bounds(part@, close@, 0); }
    let handler_raw = subvec(&part, 0, he);
    let handler = trim_vec(&handler_raw);
    Some((HttpMethod::All, path, handler))
}

fn find_route_path_exec(line: &Vec<char>, idx: usize) -> (r: Vec<char>)
    requires
        idx <= line.len(),
    ensures
        r@ == spec_find_route_path(line@, idx as int),
{
    let before = subvec(line, 0, idx);
    let quote = single('"');
    match rfind_vec(&before, &quote) {
        Some(qe) => {
            proof { crate::paths::lemma_rfind_before_bounds(before@, quote@, before@.len() as int); }
            let bq = subvec(&before, 0, qe);
            match rfind_vec(&bq, &quote) {
                Some(qs) => {
                    proof { crate::paths::lemma_rfind_before_bounds(bq@, quote@, bq@.len() as int); }
                    subvec(&before, qs + 1, qe)
                },
                None => chars_of("/"),
            }
        },
        None => chars_of("/"),
    }
}

impl AxumExtractor {
    pub fn framework_name(&self) -> (r: &'static str)
        ensures
            r@ == "axum"@,
    {
        "axum"
    }

    fn parse_route_line(&self, line: &Vec<char>) -> (r: Option<(HttpMethod, Vec<char>, Vec<char>)>)
        requires
            !(spec_parse_route_line(line@) is Panics),
        ensures
            match spec_parse_route_line(line@) {
                RouteLine::Found(m, p, h) => r matches Some((m2, p2, h2)) && m2 == m && p2@ == p && h2@ == h,
                _ => r is None,
            },
    {
        let mut k: usize = 0;
        while k < 5
            invariant
                k <= 5,
                route_scan(line@, 0) == route_scan(line@, k as int),
                !(route_scan(line@, 0) is Panics),
            decreases 5 - k,
        {
            let prefix = chars_of(method_prefix_exec(k));
            let mut dotted = single('.');
            append_vec(&mut dotted, &prefix);
            match find_vec(line, &dotted) {
                Some(idx) => {
                    proof { lemma_find_from_bounds(line@, dotted@, 0); }
                    let after = subvec(line, idx + dotted.len(), line.len());
                    let close = single(')');
                    let h = split_first_vec(&after, &close);
                    let handler = trim_vec(&h);
                    let path = find_route_path_exec(line, idx);
                    return Some((method_of_exec(k), path, handler));
                },
                None => {},
            }
            let mut qualified = chars_of("method_router::");
            append_vec(&mut qualified, &prefix);
            match find_vec(line, &qualified) {
                Some(idx) => {
                    proof { lemma_find_from_bounds(line@, qualified@, 0); }
                    assert(crate::text::matches_at(line@, qualified@, idx as int));
                    assert(idx + qualified@.len() <= line@.len());
                    let qlen = qualified.len();
                    assert(idx + qlen <= line.len());
                    let m = idx + qlen;
                    match skip_two_bytes_exec(line, m) {
                        Some(a) => {
                            let rest = subvec(line, a, line.len());
                            let close = single(')');
                            let h = split_first_vec(&rest, &close);
                            let handler = trim_vec(&h);
                            return Some((method_of_exec(k), chars_of("/"), handler));
                        },
                        None => {
                            return None;
                        },
                    }
                },
                None => {},
            }
            k = k + 1;
        }
        route_call_exec(line)
    }

    fn detect_auth_signals(&self, source: &Vec<char>) -> (r: crate::ir::AuthInfo)
        ensures
            r@ == axum_auth(source@),
    {
        let mut pats: Vec<&str> = Vec::new();
        pats.push("auth_middleware");
        pats.push("require_auth");
        pats.push("Authorization");
        pats.push("Bearer");
        pats.push("jwt");
        pats.push("rbac");
        pats.push("Permission");
        pats.push("authenticate");
        assert(Seq::new(pats@.len(), |i: int| pats@[i]@) =~= axum_auth_patterns());
        let mut signals: Vec<String> = Vec::new();
        push_present_patterns(&mut signals, source, &pats);
        assert(crate::ir::strs(signals@) =~= present_patterns(source@, axum_auth_patterns()));
        auth_from_signals(signals)
    }

    /// The endpoints the axum route declarations of `source` define, in line order.
    pub fn extract(&self, symbols: &[Symbol], source: &[u8], file_path: &str) -> (r: crate::error::WikiGenResult<Vec<Endpoint>>)
        requires
            axum_scannable(source@),
        ensures
            r matches Ok(v) && endpoint_views(v@) == spec_axum_endpoints(symbols@, source@, file_path@),
    {
        let text = utf8_or_empty_vec(source);
        let ls = lines_vec(&text);
        let ghost lsv = views(ls@);
        let mut endpoints: Vec<Endpoint> = Vec::new();
        let mut i: usize = 0;
        while i < ls.len()
            invariant
                i <= ls@.len(),
                lsv == views(ls@),
                lsv == lines(text@),
                text@ == utf8_or_empty(source@),
                axum_scannable(source@),
                endpoint_views(endpoints@) == axum_endpoints_upto(symbols@, text@, file_path@, lsv, i as int),
            decreases ls.len() - i,
        {
            let trimmed = trim_vec(&ls[i]);
            assert(lsv[i as int] == ls@[i as int]@);
            assert(!(spec_parse_route_line(trim(lsv[i as int])) is Panics));
            match self.parse_route_line(&trimmed) {
                Some((method, path, handler_name)) => {
                    let hk = find_handler_exec(symbols, &handler_name);
                    let auth = self.detect_auth_signals(&text);
                    let norm = normalize_path(&path);
                    let (handler, doc) = match hk {
                        Some(k) => (
                            Some(symbols[k].id.dup()),
                            match &symbols[k].doc {
                                Some(d) => Some(d.dup()),
                                None => None,
                            },
                        ),
                        None => (None, None),
                    };
                    let e = Endpoint {
                        method,
                        path: string_of(norm.as_slice()),
                        handler,
                        source: EndpointSource::CodeExtraction("axum".to_owned()),
                        file: file_path.to_owned(),
                        span: Span::new(0, 0, i + 1, i + 1),
                        request_type: None,
                        response_type: None,
                        auth,
                        tags: Vec::new(),
                        doc,
                    };
                    let ghost before = endpoints@;
                    endpoints.push(e);
                    proof {
                        lemma_endpoint_views_push(before, e);
                        assert(e@.tags =~= Seq::<Seq<char>>::empty());
                    }
                },
                None => {},
            }
            i = i + 1;
        }
        Ok(endpoints)
    }
}

fn normalize_path(path: &Vec<char>) -> (r: Vec<char>)
    ensures
        r@ == axum_normalize_path(path@),
{
    let a = chars_of(":id");
    let b = chars_of("{id}");
    let c = chars_of(":user_id");
    let d = chars_of("{user_id}");
    let e = chars_of("<id>");
    proof {
        reveal_strlit(":id");
        reveal_strlit(":user_id");
        reveal_strlit("<id>");
    }
    let s1 = replace_vec(path, &a, &b);
    let s2 = replace_vec(&s1, &c, &d);
    replace_vec(&s2, &e, &b)
}

/// Whether reading a trimmed line as a route makes the scan fail.
fn route_panics(line: &Vec<char>) -> (r: bool)
    ensures
        r == (spec_parse_route_line(line@) is Panics),
{
    let mut k: usize = 0;
    while k < 5
        invariant
            k <= 5,
            route_scan(line@, 0) == route_scan(line@, k as int),
        decreases 5 - k,
    {
        let prefix = chars_of(method_prefix_exec(k));
        let mut dotted = single('.');
        append_vec(&mut dotted, &prefix);
        if find_vec(line, &dotted).is_some() {
            return false;
        }
        let mut qualified = chars_of("method_router::");
        append_vec(&mut qualified, &prefix);
        match find_vec(line, &qualified) {
            Some(idx) => {
                proof { lemma_find_from_bounds(line@, qualified@, 0); }
                assert(crate::text::matches_at(line@, qualified@, idx as int));
                let qlen = qualified.len();
                assert(idx + qlen <= line.len());
                return skip_two_bytes_exec(line, idx + qlen).is_none();
            },
            None => {},
        }
        k = k + 1;
    }
    false
}

/// Whether the route scan of a source runs through every line.
pub fn axum_scannable_exec(source: &[u8]) -> (r: bool)
    ensures
        r == axum_scannable(source@),
{
    let text = utf8_or_empty_vec(source);
    let ls = lines_vec(&text);
    let ghost lsv = views(ls@);
    let mut i: usize = 0;
    while i < ls.len()
        invariant
            i <= ls@.len(),
            lsv == views(ls@),
            lsv == lines(utf8_or_empty(source@)),
            forall|j: int| 0 <= j < i ==> !(#[trigger] spec_parse_route_line(trim(lsv[j])) is Panics),
        decreases ls.len() - i,
    {
        let t = trim_vec(&ls[i]);
        assert(lsv[i as int] == ls@[i as int]@);
        if route_panics(&t) {
            return false;
        }
        i = i + 1;
    }
    true
}


// ---------------------------------------------------------------------------
// Laws
// ---------------------------------------------------------------------------

proof fn lemma_prefix_names_method(k: int)
    requires
        0 <= k < 5,
    ensures
        method_prefix(k) == crate::endpoint::fastapi_extractor::method_word(method_of(k)) + "("@,
{
    reveal_strlit("get(");
    reveal_strlit("post(");
    reveal_strlit("put(");
    reveal_strlit("delete(");
    reveal_strlit("patch(");
    reveal_strlit("get");
    reveal_strlit("post");
    reveal_strlit("put");
    reveal_strlit("delete");
    reveal_strlit("patch");
    reveal_strlit("(");
    assert(method_prefix(k) =~= crate::endpoint::fastapi_extractor::method_word(method_of(k)) + "("@);
}

/// A route read from a line names the method the line spells: a method
/// helper `.<m>(` or `method_router::<m>(` for the lower-case name `<m>` of
/// the method (`get`, `post`, `put`, `delete`, `patch`), or, for any method,
/// a `.route("` call.
pub open spec fn route_spells_method(line: Seq<char>, m: HttpMethod) -> bool {
    if m == HttpMethod::All {
        contains(line, ".route(\""@)
    } else {
        contains(line, "."@ + crate::endpoint::fastapi_extractor::method_word(m) + "("@)
            || contains(line, "method_router::"@ + crate::endpoint::fastapi_extractor::method_word(m) + "("@)
    }
}

proof fn lemma_route_scan_spells(line: Seq<char>, k: int)
    requires
        0 <= k,
    ensures
        route_scan(line, k) matches RouteLine::Found(m, _, _) ==> route_spells_method(line, m),
    decreases 5 - k,
{
    reveal_strlit(".");
    if k >= 5 {
        if route_call(line) is Found {
            assert(find(line, ".route(\""@) is Some);
        }
    } else {
        lemma_prefix_names_method(k);
        assert(seq!['.'] + method_prefix(k) =~= "."@ + crate::endpoint::fastapi_extractor::method_word(method_of(k)) + "("@);
        assert("method_router::"@ + method_prefix(k) =~= "method_router::"@ + crate::endpoint::fastapi_extractor::method_word(method_of(k)) + "("@);
        assert(method_of(k) != HttpMethod::All);
        lemma_route_scan_spells(line, k + 1);
    }
}

/// Every route a line gives has the method the line spells (see
/// [`route_spells_method`]).
pub proof fn law_axum_method(line: Seq<char>)
    ensures
        spec_parse_route_line(line) matches RouteLine::Found(m, _, _) ==> route_spells_method(line, m),
{
    lemma_route_scan_spells(line, 0);
}

} // verus!
