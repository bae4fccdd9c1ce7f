//! Route extraction from FastAPI decorators.

use vstd::prelude::*;

use crate::endpoint::{auth_from_signals, classify, find_handler, find_handler_exec, present_patterns, push_present_patterns};
use crate::ir::{
    endpoint_views, lemma_endpoint_views_push, strs, AuthView, Endpoint, EndpointSource,
    EndpointSourceView, EndpointView, HttpMethod, Span, Symbol,
};
use crate::text::{
    chars_of, contains, contains_vec, find, find_vec, lemma_find_from_bounds, lines, lines_vec,
    replace, replace_vec, single, starts_with, starts_with_vec, string_of, subvec, trim,
    trim_start_matches, trim_start_matches_vec, trim_vec, utf8_or_empty, utf8_or_empty_vec,
    views,
};

verus! {

pub struct FastApiExtractor;

/// The decorator prefixes recognised, in the order they are tried.
pub open spec fn decorator_pattern(j: int) -> Seq<char> {
    if j == 0 { "@app.get("@ } else if j == 1 { "@app.post("@ } else if j == 2 { "@app.put("@ }
    else if j == 3 { "@app.delete("@ } else if j == 4 { "@app.patch("@ } else if j == 5 { "@router.get("@ }
    else if j == 6 { "@router.post("@ } else if j == 7 { "@router.put("@ } else if j == 8 { "@router.delete("@ }
    else { "@router.patch("@ }
}

pub open spec fn decorator_method(j: int) -> HttpMethod {
    if j == 0 || j == 5 { HttpMethod::Get } else if j == 1 || j == 6 { HttpMethod::Post }
    else if j == 2 || j == 7 { HttpMethod::Put } else if j == 3 || j == 8 { HttpMethod::Delete }
    else { HttpMethod::Patch }
}

/// The quoted path right after the decorator prefix, else `/`.
pub open spec fn spec_extract_path(line: Seq<char>, pattern: Seq<char>) -> Seq<char> {
    let after = line.subrange(pattern.len() as int, line.len() as int);
    if after.len() > 0 && (after[0] == '"' || after[0] == '\'') {
        let rest = after.subrange(1, after.len() as int);
        match find(rest, seq![after[0]]) {
            Some(end) => rest.subrange(0, end),
            None => "/"@,
        }
    } else {
        "/"@
    }
}

/// The function defined on one of the four lines after `start`, if any.
pub open spec fn next_function_from(ls: Seq<Seq<char>>, start: int, i: int) -> Option<Seq<char>>
    decreases start + 5 - i,
{
    if i >= ls.len() || i >= start + 5 || i < 0 {
        None
    } else {
        let t = trim(ls[i]);
        if starts_with(t, "def "@) || starts_with(t, "async def "@) {
            let name_part = trim_start_matches(trim_start_matches(t, "async "@), "def "@);
            match find(name_part, seq!['(']) {
                Some(p) => Some(name_part.subrange(0, p)),
                None => next_function_from(ls, start, i + 1),
            }
        } else {
            next_function_from(ls, start, i + 1)
        }
    }
}

pub open spec fn spec_find_next_function(ls: Seq<Seq<char>>, start: int) -> Option<Seq<char>> {
    next_function_from(ls, start, start + 1)
}

pub open spec fn fastapi_auth_patterns() -> Seq<Seq<char>> {
    seq!["get_current_user"@, "oauth2_scheme"@, "HTTPBearer"@, "Security("@, "api_key"@]
}

/// `Depends` when the decorator mentions it, then the auth patterns found in the source.
pub open spec fn fastapi_auth(decorator_line: Seq<char>, source: Seq<char>) -> AuthView {
    let first: Seq<Seq<char>> = if contains(decorator_line, "Depends"@) { seq!["Depends"@] } else { Seq::empty() };
    let signals = first + present_patterns(source, fastapi_auth_patterns());
    AuthView { signals, classification: classify(signals) }
}

/// Braces kept as they are (the path is returned unchanged).
pub open spec fn fastapi_normalize_path(path: Seq<char>) -> Seq<char> {
    replace(replace(path, "{"@, "{"@), "}"@, "}"@)
}

pub open spec fn fastapi_endpoint(
    symbols: Seq<Symbol>,
    source: Seq<char>,
    file: Seq<char>,
    ls: Seq<Seq<char>>,
    line_no: int,
    j: int,
) -> EndpointView {
    let trimmed = trim(ls[line_no]);
    let path = spec_extract_path(trimmed, decorator_pattern(j));
    let h = match spec_find_next_function(ls, line_no) {
        Some(name) => find_handler(symbols, name),
        None => None,
    };
    EndpointView {
        method: decorator_method(j),
        path: fastapi_normalize_path(path),
        handler: match h { Some(k) => Some(symbols[k].id), None => None },
        source: EndpointSourceView::CodeExtraction("fastapi"@),
        file,
        span: Span { start_byte: 0, end_byte: 0, start_line: (line_no + 1) as usize, end_line: (line_no + 1) as usize },
        request_type: None,
        response_type: None,
        auth: fastapi_auth(trimmed, source),
        tags: Seq::empty(),
        doc: match h { Some(k) => crate::ir::doc_view(symbols[k].doc), None => None },
    }
}

/// Endpoints of line `line_no` from the first `j` decorator patterns.
pub open spec fn fastapi_line_endpoints(
    symbols: Seq<Symbol>,
    source: Seq<char>,
    file: Seq<char>,
    ls: Seq<Seq<char>>,
    line_no: int,
    j: int,
) -> Seq<EndpointView>
    decreases j,
{
    if j <= 0 {
        Seq::empty()
    } else {
        let rest = fastapi_line_endpoints(symbols, source, file, ls, line_no, j - 1);
        if starts_with(trim(ls[line_no]), decorator_pattern(j - 1)) {
            rest.push(fastapi_endpoint(symbols, source, file, ls, line_no, j - 1))
        } else {
            rest
        }
    }
}

pub open spec fn fastapi_endpoints_upto(
    symbols: Seq<Symbol>,
    source: Seq<char>,
    file: Seq<char>,
    ls: Seq<Seq<char>>,
    n: int,
) -> Seq<EndpointView>
    decreases n,
{
    if n <= 0 {
        Seq::empty()
    } else {
        fastapi_endpoints_upto(symbols, source, file, ls, n - 1) + fastapi_line_endpoints(
            symbols,
            source,
            file,
            ls,
            n - 1,
            10,
        )
    }
}

pub open spec fn spec_fastapi_endpoints(symbols: Seq<Symbol>, source: Seq<u8>, file: Seq<char>) -> Seq<EndpointView> {
    let text = utf8_or_empty(source);
    let ls = lines(text);
    fastapi_endpoints_upto(symbols, text, file, ls, ls.len() as int)
}

fn decorator_pattern_exec(j: usize) -> (r: &'static str)
    requires
        j < 10,
    ensures
        r@ == decorator_pattern(j as int),
{
    if j == 0 { "@app.get(" } else if j == 1 { "@app.post(" } else if j == 2 { "@app.put(" }
    else if j == 3 { "@app.delete(" } else if j == 4 { "@app.patch(" } else if j == 5 { "@router.get(" }
    else if j == 6 { "@router.post(" } else if j == 7 { "@router.put(" } else if j == 8 { "@router.delete(" }
    else { "@router.patch(" }
}

fn decorator_method_exec(j: usize) -> (r: HttpMethod)
    ensures
        r == decorator_method(j as int),
{
    if j == 0 || j == 5 { HttpMethod::Get } else if j == 1 || j == 6 { HttpMethod::Post }
    else if j == 2 || j == 7 { HttpMethod::Put } else if j == 3 || j == 8 { HttpMethod::Delete }
    else { HttpMethod::Patch }
}

fn normalize_path(path: &Vec<char>) -> (r: Vec<char>)
    ensures
        r@ == fastapi_normalize_path(path@),
{
    let open = chars_of("{");
    let close = chars_of("}");
    proof {
        reveal_strlit("{");
        reveal_strlit("}");
    }
    let a = replace_vec(path, &open, &open);
    replace_vec(&a, &close, &close)
}

impl FastApiExtractor {
    pub fn framework_name(&self) -> (r: &'static str)
        ensures
            r@ == "fastapi"@,
    {
        "fastapi"
    }

    fn extract_path(&self, line: &Vec<char>, pattern: &Vec<char>) -> (r: Vec<char>)
        requires
            pattern@.len() <= line@.len(),
        ensures
            r@ == spec_extract_path(line@, pattern@),
    {
        let after = subvec(line, pattern.len(), line.len());
        if after.len() > 0 && (after[0] == '"' || after[0] == '\'') {
            let rest = subvec(&after, 1, after.len());
            let q = single(after[0]);
            match find_vec(&rest, &q) {
                Some(end) => {
                    proof { lemma_find_from_bounds(rest@, q@, 0); }
                    return subvec(&rest, 0, end);
                },
                None => {},
            }
        }
        chars_of("/")
    }

    fn find_next_function(&self, ls: &Vec<Vec<char>>, start: usize) -> (r: Option<Vec<char>>)
        ensures
            match spec_find_next_function(views(ls@), start as int) {
                Some(n) => r matches Some(v) && v@ == n,
                None => r is None,
            },
    {
        if start >= ls.len() {
            return None;
        }
        let limit: usize = if ls.len() - start < 5 { ls.len() } else { start + 5 };
        let mut i: usize = start + 1;
        let def = chars_of("def ");
        let adef = chars_of("async def ");
        let asyn = chars_of("async ");
        while i < limit
            invariant
                start < ls@.len(),
                start + 1 <= i,
                limit == (if ls@.len() - start < 5 { ls@.len() as int } else { start + 5 }),
                def@ == "def "@,
                adef@ == "async def "@,
                asyn@ == "async "@,
                spec_find_next_function(views(ls@), start as int) == next_function_from(views(ls@), start as int, i as int),
            decreases limit - i,
        {
            let t = trim_vec(&ls[i]);
            assert(views(ls@)[i as int] == ls@[i as int]@);
            if starts_with_vec(&t, &def) || starts_with_vec(&t, &adef) {
                let a = trim_start_matches_vec(&t, &asyn);
                let name_part = trim_start_matches_vec(&a, &def);
                let paren = single('(');
                match find_vec(&name_part, &paren) {
                    Some(p) => {
                        proof { lemma_find_from_bounds(name_part@, paren@, 0); }
                        return Some(subvec(&name_part, 0, p));
                    },
                    None => {},
                }
            }
            i = i + 1;
        }
        None
    }

    fn detect_auth_signals(&self, decorator_line: &Vec<char>, source: &Vec<char>) -> (r: crate::ir::AuthInfo)
        ensures
            r@ == fastapi_auth(decorator_line@, source@),
    {
        let mut signals: Vec<String> = Vec::new();
        let dep = chars_of("Depends");
        if contains_vec(decorator_line, &dep) {
            signals.push("Depends".to_owned());
        }
        assert(strs(signals@) =~= (if contains(decorator_line@, "Depends"@) { seq!["Depends"@] } else { Seq::<Seq<char>>::empty() }));
        let mut pats: Vec<&str> = Vec::new();
        pats.push("get_current_user");
        pats.push("oauth2_scheme");
        pats.push("HTTPBearer");
        pats.push("Security(");
        pats.push("api_key");
        assert(Seq::new(pats@.len(), |i: int| pats@[i]@) =~= fastapi_auth_patterns());
        push_present_patterns(&mut signals, source, &pats);
        auth_from_signals(signals)
    }

    /// The endpoints FastAPI decorators in `source` declare, in line order.
    pub fn extract(&self, symbols: &[Symbol], source: &[u8], file_path: &str) -> (r: crate::error::WikiGenResult<Vec<Endpoint>>)
        ensures
            r matches Ok(v) && endpoint_views(v@) == spec_fastapi_endpoints(symbols@, source@, file_path@),
    {
        let text = utf8_or_empty_vec(source);
        let ls = lines_vec(&text);
        let ghost lsv = views(ls@);
        let mut endpoints: Vec<Endpoint> = Vec::new();
        let mut i: usize = 0;
        while i < ls.len()
            invariant
                i <= ls@.len(),
                lsv == views(ls@),
                lsv == lines(text@),
                text@ == utf8_or_empty(source@),
                endpoint_views(endpoints@) == fastapi_endpoints_upto(symbols@, text@, file_path@, lsv, i as int),
            decreases ls.len() - i,
        {
            let trimmed = trim_vec(&ls[i]);
            assert(lsv[i as int] == ls@[i as int]@);
            let ghost base = endpoint_views(endpoints@);
            let mut j: usize = 0;
            while j < 10
                invariant
                    j <= 10,
                    i < ls@.len(),
                    i < ls.len(),
                    lsv == views(ls@),
                    trimmed@ == trim(lsv[i as int]),
                    endpoint_views(endpoints@) == base + fastapi_line_endpoints(symbols@, text@, file_path@, lsv, i as int, j as int),
                decreases 10 - j,
            {
                let pattern = chars_of(decorator_pattern_exec(j));
                if starts_with_vec(&trimmed, &pattern) {
                    let path = self.extract_path(&trimmed, &pattern);
                    let name = self.find_next_function(&ls, i);
                    let hk: Option<usize> = match &name {
                        Some(n) => find_handler_exec(symbols, n),
                        None => None,
                    };
                    let auth = self.detect_auth_signals(&trimmed, &text);
                    let norm = normalize_path(&path);
                    let (handler, doc) = match hk {
                        Some(k) => (
                            Some(symbols[k].id.dup()),
                            match &symbols[k].doc {
                                Some(d) => Some(d.dup()),
                                None => None,
                            },
                        ),
                        None => (None, None),
                    };
                    let e = Endpoint {
                        method: decorator_method_exec(j),
                        path: string_of(norm.as_slice()),
                        handler,
                        source: EndpointSource::CodeExtraction("fastapi".to_owned()),
                        file: file_path.to_owned(),
                        span: Span::new(0, 0, i + 1, i + 1),
                        request_type: None,
                        response_type: None,
                        auth,
                        tags: Vec::new(),
                        doc,
                    };
                    let ghost before = endpoints@;
                    endpoints.push(e);
                    proof {
                        lemma_endpoint_views_push(before, e);
                        assert(e@.tags =~= Seq::<Seq<char>>::empty());
                        assert(e@ == fastapi_endpoint(symbols@, text@, file_path@, lsv, i as int, j as int));
                    }
                }
                j = j + 1;
            }
            assert(fastapi_endpoints_upto(symbols@, text@, file_path@, lsv, i + 1) == base
                + fastapi_line_endpoints(symbols@, text@, file_path@, lsv, i as int, 10));
            i = i + 1;
        }
        Ok(endpoints)
    }
}


// ---------------------------------------------------------------------------
// Laws
// ---------------------------------------------------------------------------

/// The lower-case name of a method, as FastAPI's decorators spell it.
pub open spec fn method_word(m: HttpMethod) -> Seq<char> {
    match m {
        HttpMethod::Get => "get"@,
        HttpMethod::Post => "post"@,
        HttpMethod::Put => "put"@,
        HttpMethod::Delete => "delete"@,
        HttpMethod::Patch => "patch"@,
        HttpMethod::All => "all"@,
    }
}

/// A line, once trimmed, opens with `@app.<m>(` or `@router.<m>(` for the
/// lower-case name `<m>` of the method.
pub open spec fn decorates_with(line: Seq<char>, m: HttpMethod) -> bool {
    starts_with(trim(line), "@app."@ + method_word(m) + "("@) || starts_with(trim(line), "@router."@ + method_word(m) + "("@)
}

proof fn lemma_pattern_names_method(j: int)
    requires
        0 <= j < 10,
    ensures
        decorator_pattern(j) == (if j < 5 { "@app."@ } else { "@router."@ }) + method_word(decorator_method(j)) + "("@,
{
    reveal_strlit("@app.get(");
    reveal_strlit("@app.post(");
    reveal_strlit("@app.put(");
    reveal_strlit("@app.delete(");
    reveal_strlit("@app.patch(");
    reveal_strlit("@router.get(");
    reveal_strlit("@router.post(");
    reveal_strlit("@router.put(");
    reveal_strlit("@router.delete(");
    reveal_strlit("@router.patch(");
    reveal_strlit("@app.");
    reveal_strlit("@router.");
    reveal_strlit("get");
    reveal_strlit("post");
    reveal_strlit("put");
    reveal_strlit("delete");
    reveal_strlit("patch");
    reveal_strlit("(");
    assert(decorator_pattern(j) =~= (if j < 5 { "@app."@ } else { "@router."@ }) + method_word(decorator_method(j)) + "("@);
}

proof fn lemma_line_endpoints_decorated(
    symbols: Seq<Symbol>,
    source: Seq<char>,
    file: Seq<char>,
    ls: Seq<Seq<char>>,
    line_no: int,
    j: int,
)
    requires
        0 <= line_no < ls.len(),
        j <= 10,
    ensures
        forall|k: int| 0 <= k < fastapi_line_endpoints(symbols, source, file, ls, line_no, j).len() ==> {
            let e = #[trigger] fastapi_line_endpoints(symbols, source, file, ls, line_no, j)[k];
            e.span.start_line == (line_no + 1) as usize && decorates_with(ls[line_no], e.method)
        },
    decreases j,
{
    if j > 0 {
        lemma_line_endpoints_decorated(symbols, source, file, ls, line_no, j - 1);
        let rest = fastapi_line_endpoints(symbols, source, file, ls, line_no, j - 1);
        if starts_with(trim(ls[line_no]), decorator_pattern(j - 1)) {
            lemma_pattern_names_method(j - 1);
            let e = fastapi_endpoint(symbols, source, file, ls, line_no, j - 1);
            assert(e.method == decorator_method(j - 1));
            assert(decorates_with(ls[line_no], e.method));
            let all = rest.push(e);
            assert forall|k: int| 0 <= k < all.len() implies {
                let x = #[trigger] all[k];
                x.span.start_line == (line_no + 1) as usize && decorates_with(ls[line_no], x.method)
            } by {
                if k < rest.len() {
                    assert(all[k] == rest[k]);
                }
            }
        }
    }
}

proof fn lemma_endpoints_upto_decorated(symbols: Seq<Symbol>, source: Seq<char>, file: Seq<char>, ls: Seq<Seq<char>>, n: int)
    requires
        n <= ls.len(),
    ensures
        forall|k: int| 0 <= k < fastapi_endpoints_upto(symbols, source, file, ls, n).len() ==> {
            let e = #[trigger] fastapi_endpoints_upto(symbols, source, file, ls, n)[k];
            exists|l: int| 0 <= l < ls.len() && e.span.start_line == (l + 1) as usize && decorates_with(#[trigger] ls[l], e.method)
        },
    decreases n,
{
    if n > 0 {
        lemma_endpoints_upto_decorated(symbols, source, file, ls, n - 1);
        lemma_line_endpoints_decorated(symbols, source, file, ls, n - 1, 10);
        let a = fastapi_endpoints_upto(symbols, source, file, ls, n - 1);
        let b = fastapi_line_endpoints(symbols, source, file, ls, n - 1, 10);
        let all = fastapi_endpoints_upto(symbols, source, file, ls, n);
        assert(all == a + b);
        assert forall|k: int| 0 <= k < all.len() implies {
            let e = #[trigger] all[k];
            exists|l: int| 0 <= l < ls.len() && e.span.start_line == (l + 1) as usize && decorates_with(#[trigger] ls[l], e.method)
        } by {
            if k < a.len() {
                assert(all[k] == a[k]);
            } else {
                assert(all[k] == b[k - a.len()]);
                let l = n - 1;
                assert(decorates_with(ls[l], all[k].method));
            }
        }
    }
}

/// Every endpoint found in a FastAPI source comes from one of its lines,
/// the line its span names, and that line opens with `@app.<m>(` or
/// `@router.<m>(` where `<m>` names the endpoint's method: `delete` gives
/// DELETE, `patch` PATCH, `get` GET, `post` POST, `put` PUT.
pub proof fn law_fastapi_method(symbols: Seq<Symbol>, source: Seq<u8>, file: Seq<char>)
    ensures
        forall|k: int| 0 <= k < spec_fastapi_endpoints(symbols, source, file).len() ==> {
            let e = #[trigger] spec_fastapi_endpoints(symbols, source, file)[k];
            let ls = lines(utf8_or_empty(source));
            exists|l: int| 0 <= l < ls.len() && e.span.start_line == (l + 1) as usize && decorates_with(#[trigger] ls[l], e.method)
        },
{
    let text = utf8_or_empty(source);
    let ls = lines(text);
    lemma_endpoints_upto_decorated(symbols, text, file, ls, ls.len() as int);
}

} // verus!
