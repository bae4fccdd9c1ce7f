//! Endpoints declared by API specifications: OpenAPI / Swagger JSON and protobuf services.

use vstd::prelude::*;

use crate::error::{WikiGenError, WikiGenResult};
use crate::ir::{
    endpoint_views, lemma_endpoint_views_push, strs, ApiSpec, AuthClassification, AuthInfo,
    AuthView, Doc, DocFormat, DocView, Endpoint, EndpointSource, EndpointSourceView,
    EndpointView, HttpMethod, Span, SpecKind,
};
use crate::json::{json_document, parse_json_text, JsonValue};
use crate::lang::ApiSpecType;
use crate::paths::{extension, extension_vec};
use crate::text::{
    append_str, append_vec, chars_of, eq_vec, lines, lines_vec, single, split_first,
    split_first_vec, starts_with, starts_with_vec, string_of, trim, trim_start_matches,
    trim_start_matches_vec, trim_vec, views,
};

verus! {

pub open spec fn spec_kind_of(t: ApiSpecType) -> SpecKind {
    match t {
        ApiSpecType::OpenApi => SpecKind::OpenApi,
        ApiSpecType::Swagger => SpecKind::Swagger,
        ApiSpecType::Proto => SpecKind::OpenApi,
    }
}

fn kind_of(t: ApiSpecType) -> (r: SpecKind)
    ensures
        r == spec_kind_of(t),
{
    match t {
        ApiSpecType::OpenApi => SpecKind::OpenApi,
        ApiSpecType::Swagger => SpecKind::Swagger,
        ApiSpecType::Proto => SpecKind::OpenApi,
    }
}

pub struct ApiSpecView {
    pub kind: SpecKind,
    pub file: Seq<char>,
    pub endpoints: Seq<EndpointView>,
}

impl View for ApiSpec {
    type V = ApiSpecView;

    open spec fn view(&self) -> ApiSpecView {
        ApiSpecView { kind: self.kind, file: self.file@, endpoints: endpoint_views(self.endpoints@) }
    }
}

// ---------------------------------------------------------------------------
// OpenAPI
// ---------------------------------------------------------------------------

pub open spec fn method_named(name: Seq<char>) -> Option<HttpMethod> {
    if name == "get"@ { Some(HttpMethod::Get) }
    else if name == "post"@ { Some(HttpMethod::Post) }
    else if name == "put"@ { Some(HttpMethod::Put) }
    else if name == "delete"@ { Some(HttpMethod::Delete) }
    else if name == "patch"@ { Some(HttpMethod::Patch) }
    else { None }
}

/// The string elements of an array, in order.
pub open spec fn string_elems(a: Seq<JsonValue>, n: int) -> Seq<Seq<char>>
    decreases n,
{
    if n <= 0 {
        Seq::empty()
    } else {
        let rest = string_elems(a, n - 1);
        match a[n - 1] {
            JsonValue::Str(s) => rest.push(s@),
            _ => rest,
        }
    }
}

pub open spec fn operation_tags(details: JsonValue) -> Seq<Seq<char>> {
    match details.spec_get("tags"@) {
        Some(JsonValue::Array(a)) => string_elems(a@, a@.len() as int),
        _ => Seq::empty(),
    }
}

pub open spec fn operation_endpoint(path: Seq<char>, method: HttpMethod, details: JsonValue, file: Seq<char>, kind: SpecKind) -> EndpointView {
    let summary = match details.spec_get("summary"@) {
        Some(v) => v.spec_as_str(),
        None => None,
    };
    EndpointView {
        method,
        path,
        handler: None,
        source: EndpointSourceView::Spec(kind),
        file,
        span: Span { start_byte: 0, end_byte: 0, start_line: 0, end_line: 0 },
        request_type: None,
        response_type: None,
        auth: if details.spec_get("security"@) is Some {
            AuthView { signals: seq!["security"@], classification: AuthClassification::Required }
        } else {
            AuthView { signals: Seq::empty(), classification: AuthClassification::Unknown }
        },
        tags: operation_tags(details),
        doc: match summary {
            Some(s) => Some(DocView { raw: s, format: DocFormat::Markdown, summary: Some(s) }),
            None => None,
        },
    }
}

/// Endpoints of the first `n` operations of one path item.
pub open spec fn path_item_endpoints(path: Seq<char>, ops: Seq<(String, JsonValue)>, n: int, file: Seq<char>, kind: SpecKind) -> Seq<EndpointView>
    decreases n,
{
    if n <= 0 {
        Seq::empty()
    } else {
        let rest = path_item_endpoints(path, ops, n - 1, file, kind);
        match method_named(ops[n - 1].0@) {
            Some(m) => rest.push(operation_endpoint(path, m, ops[n - 1].1, file, kind)),
            None => rest,
        }
    }
}

/// Endpoints of the first `n` path items.
pub open spec fn paths_endpoints(items: Seq<(String, JsonValue)>, n: int, file: Seq<char>, kind: SpecKind) -> Seq<EndpointView>
    decreases n,
{
    if n <= 0 {
        Seq::empty()
    } else {
        paths_endpoints(items, n - 1, file, kind) + match items[n - 1].1 {
            JsonValue::Object(ops) => path_item_endpoints(items[n - 1].0@, ops@, ops@.len() as int, file, kind),
            _ => Seq::empty(),
        }
    }
}

/// The endpoints an OpenAPI / Swagger document declares under `paths`.
pub open spec fn openapi_endpoints(doc: JsonValue, file: Seq<char>, kind: SpecKind) -> Seq<EndpointView> {
    match doc.spec_get("paths"@) {
        Some(JsonValue::Object(items)) => paths_endpoints(items@, items@.len() as int, file, kind),
        _ => Seq::empty(),
    }
}

fn method_named_exec(name: &Vec<char>) -> (r: Option<HttpMethod>)
    ensures
        r == method_named(name@),
{
    if eq_vec(name, &chars_of("get")) { Some(HttpMethod::Get) }
    else if eq_vec(name, &chars_of("post")) { Some(HttpMethod::Post) }
    else if eq_vec(name, &chars_of("put")) { Some(HttpMethod::Put) }
    else if eq_vec(name, &chars_of("delete")) { Some(HttpMethod::Delete) }
    else if eq_vec(name, &chars_of("patch")) { Some(HttpMethod::Patch) }
    else { None }
}

fn operation_tags_exec(details: &JsonValue) -> (r: Vec<String>)
    ensures
        strs(r@) == operation_tags(*details),
{
    let mut out: Vec<String> = Vec::new();
    match details.get("tags") {
        Some(JsonValue::Array(a)) => {
            let mut i: usize = 0;
            while i < a.len()
                invariant
                    i <= a@.len(),
                    strs(out@) == string_elems(a@, i as int),
                decreases a.len() - i,
            {
                match &a[i] {
                    JsonValue::Str(s) => {
                        let ghost b = out@;
                        out.push(s.clone());
                        proof { crate::ir::lemma_strs_push(b, out@.last()); }
                    },
                    _ => {},
                }
                i = i + 1;
            }
        },
        _ => {},
    }
    out
}

fn operation_endpoint_exec(path: &String, method: HttpMethod, details: &JsonValue, file_path: &str, kind: SpecKind) -> (r: Endpoint)
    ensures
        r@ == operation_endpoint(path@, method, *details, file_path@, kind),
{
    let summary: Option<String> = match details.get("summary") {
        Some(v) => match v.as_str() {
            Some(s) => Some(s.clone()),
            None => None,
        },
        None => None,
    };
    let auth = if details.get("security").is_some() {
        let mut sig: Vec<String> = Vec::new();
        sig.push("security".to_owned());
        assert(strs(sig@) =~= seq!["security"@]);
        AuthInfo { signals: sig, classification: AuthClassification::Required }
    } else {
        let a = AuthInfo::default();
        assert(strs(a.signals@) =~= Seq::<Seq<char>>::empty());
        a
    };
    let doc = match summary {
        Some(s) => Some(Doc { raw: s.clone(), format: DocFormat::Markdown, summary: Some(s) }),
        None => None,
    };
    Endpoint {
        method,
        path: path.clone(),
        handler: None,
        source: EndpointSource::Spec(kind),
        file: file_path.to_owned(),
        span: Span::new(0, 0, 0, 0),
        request_type: None,
        response_type: None,
        auth,
        tags: operation_tags_exec(details),
        doc,
    }
}

/// The spec an OpenAPI / Swagger JSON document describes.
pub fn parse_openapi_document(doc: &JsonValue, file_path: &str, spec_type: ApiSpecType) -> (r: ApiSpec)
    ensures
        r@ == (ApiSpecView { kind: spec_kind_of(spec_type), file: file_path@, endpoints: openapi_endpoints(*doc, file_path@, spec_kind_of(spec_type)) }),
{
    let kind = kind_of(spec_type);
    let mut endpoints: Vec<Endpoint> = Vec::new();
    match doc.get("paths") {
        Some(JsonValue::Object(items)) => {
            let mut i: usize = 0;
            while i < items.len()
                invariant
                    i <= items@.len(),
                    endpoint_views(endpoints@) == paths_endpoints(items@, i as int, file_path@, kind),
                decreases items.len() - i,
            {
                let ghost base = endpoint_views(endpoints@);
                match &items[i].1 {
                    JsonValue::Object(ops) => {
                        let mut j: usize = 0;
                        while j < ops.len()
                            invariant
                                j <= ops@.len(),
                                i < items@.len(),
                                items@[i as int].1 == JsonValue::Object(*ops),
                                endpoint_views(endpoints@) == base + path_item_endpoints(items@[i as int].0@, ops@, j as int, file_path@, kind),
                            decreases ops.len() - j,
                        {
                            let name = chars_of(ops[j].0.as_str());
                            match method_named_exec(&name) {
                                Some(m) => {
                                    let e = operation_endpoint_exec(&items[i].0, m, &ops[j].1, file_path, kind);
                                    let ghost b = endpoints@;
                                    endpoints.push(e);
                                    proof { lemma_endpoint_views_push(b, e); }
                                },
                                None => {},
                            }
                            j = j + 1;
                        }
                    },
                    _ => {
                        assert(endpoint_views(endpoints@) =~= paths_endpoints(items@, i + 1, file_path@, kind));
                    },
                }
                i = i + 1;
            }
        },
        _ => {
            assert(endpoint_views(endpoints@) =~= Seq::<EndpointView>::empty());
        },
    }
    ApiSpec { kind, file: file_path.to_owned(), endpoints }
}

// ---------------------------------------------------------------------------
// Protobuf
// ---------------------------------------------------------------------------

/// The service name a `service X {` line declares.
pub open spec fn service_name(t: Seq<char>) -> Seq<char> {
    trim(split_first(trim_start_matches(t, "service "@), seq!['{']))
}

pub open spec fn rpc_name(t: Seq<char>) -> Seq<char> {
    trim(split_first(trim_start_matches(t, "rpc "@), seq!['(']))
}

pub open spec fn rpc_endpoint(service: Seq<char>, rpc: Seq<char>, file: Seq<char>) -> EndpointView {
    EndpointView {
        method: HttpMethod::Post,
        path: seq!['/'] + service + seq!['/'] + rpc,
        handler: None,
        source: EndpointSourceView::Spec(SpecKind::Proto),
        file,
        span: Span { start_byte: 0, end_byte: 0, start_line: 0, end_line: 0 },
        request_type: None,
        response_type: None,
        auth: AuthView { signals: Seq::empty(), classification: AuthClassification::Unknown },
        tags: seq![service],
        doc: None,
    }
}

/// The current service and the endpoints after the first `n` lines.
pub open spec fn proto_scan(ls: Seq<Seq<char>>, n: int, file: Seq<char>) -> (Seq<char>, Seq<EndpointView>)
    decreases n,
{
    if n <= 0 {
        (Seq::empty(), Seq::empty())
    } else {
        let (service, eps) = proto_scan(ls, n - 1, file);
        let t = trim(ls[n - 1]);
        if starts_with(t, "service "@) {
            (service_name(t), eps)
        } else if starts_with(t, "rpc "@) && service.len() > 0 && rpc_name(t).len() > 0 {
            (service, eps.push(rpc_endpoint(service, rpc_name(t), file)))
        } else {
            (service, eps)
        }
    }
}

pub open spec fn proto_endpoints(text: Seq<char>, file: Seq<char>) -> Seq<EndpointView> {
    proto_scan(lines(text), lines(text).len() as int, file).1
}

pub fn parse_proto(text: &str, file_path: &str) -> (r: WikiGenResult<ApiSpec>)
    ensures
        r matches Ok(s) && s@ == (ApiSpecView { kind: SpecKind::Proto, file: file_path@, endpoints: proto_endpoints(text@, file_path@) }),
{
    let tv = chars_of(text);
    let ls = lines_vec(&tv);
    let svc = chars_of("service ");
    let rpc = chars_of("rpc ");
    let mut current: Vec<char> = Vec::new();
    let mut endpoints: Vec<Endpoint> = Vec::new();
    let mut i: usize = 0;
    while i < ls.len()
        invariant
            i <= ls@.len(),
            views(ls@) == lines(text@),
            svc@ == "service "@,
            rpc@ == "rpc "@,
            current@ == proto_scan(views(ls@), i as int, file_path@).0,
            endpoint_views(endpoints@) == proto_scan(views(ls@), i as int, file_path@).1,
        decreases ls.len() - i,
    {
        let t = trim_vec(&ls[i]);
        assert(views(ls@)[i as int] == ls@[i as int]@);
        if starts_with_vec(&t, &svc) {
            let a = trim_start_matches_vec(&t, &svc);
            let b = split_first_vec(&a, &single('{'));
            current = trim_vec(&b);
        } else if starts_with_vec(&t, &rpc) && current.len() > 0 {
            let a = trim_start_matches_vec(&t, &rpc);
            let b = split_first_vec(&a, &single('('));
            let name = trim_vec(&b);
            if name.len() > 0 {
                let mut path = single('/');
                append_vec(&mut path, &current);
                path.push('/');
                append_vec(&mut path, &name);
                let mut tags: Vec<String> = Vec::new();
                tags.push(string_of(current.as_slice()));
                assert(strs(tags@) =~= seq![current@]);
                let auth = AuthInfo::default();
                assert(strs(auth.signals@) =~= Seq::<Seq<char>>::empty());
                let e = Endpoint {
                    method: HttpMethod::Post,
                    path: string_of(path.as_slice()),
                    handler: None,
                    source: EndpointSource::Spec(SpecKind::Proto),
                    file: file_path.to_owned(),
                    span: Span::new(0, 0, 0, 0),
                    request_type: None,
                    response_type: None,
                    auth,
                    tags,
                    doc: None,
                };
                let ghost b2 = endpoints@;
                endpoints.push(e);
                proof {
                    lemma_endpoint_views_push(b2, e);
                    assert(path@ =~= seq!['/'] + current@ + seq!['/'] + name@);
                }
            }
        }
        i = i + 1;
    }
    Ok(ApiSpec { kind: SpecKind::Proto, file: file_path.to_owned(), endpoints })
}

// ---------------------------------------------------------------------------
// Dispatch
// ---------------------------------------------------------------------------

/// Whether the spec file is read as JSON: OpenAPI / Swagger with a `json` extension.
pub open spec fn needs_json(file_path: Seq<char>, spec_type: ApiSpecType) -> bool {
    spec_type != ApiSpecType::Proto && extension(file_path) == Some("json"@)
}

/// The spec the file's content describes.
///
/// Invalid UTF-8 is a parse error; OpenAPI / Swagger files are read as JSON
/// when their extension is `json`, and the others give a spec without endpoints.
pub fn discover_api_spec(content: &[u8], file_path: &str, spec_type: ApiSpecType) -> (r: WikiGenResult<ApiSpec>)
    ensures
        !vstd::utf8::valid_utf8(content@) ==> (r matches Err(WikiGenError::Parse { file, .. }) && file@ == file_path@),
        vstd::utf8::valid_utf8(content@) ==> match spec_type {
            ApiSpecType::Proto => r matches Ok(s) && s@ == (ApiSpecView {
                kind: SpecKind::Proto,
                file: file_path@,
                endpoints: proto_endpoints(vstd::utf8::decode_utf8(content@), file_path@),
            }),
            _ => match (if needs_json(file_path@, spec_type) {
                Some(json_document(vstd::utf8::decode_utf8(content@)))
            } else {
                None
            }) {
                Some(Ok(doc)) => r matches Ok(s) && s@ == (ApiSpecView {
                    kind: spec_kind_of(spec_type),
                    file: file_path@,
                    endpoints: openapi_endpoints(doc, file_path@, spec_kind_of(spec_type)),
                }),
                Some(Err(m)) => r matches Err(WikiGenError::Parse { file, message }) && file@ == file_path@
                    && message@ == "Failed to parse OpenAPI JSON: "@ + m,
                None => r matches Ok(s) && s@ == (ApiSpecView {
                    kind: spec_kind_of(spec_type),
                    file: file_path@,
                    endpoints: Seq::empty(),
                }),
            },
        },
{
    let text = match crate::text::utf8_str_or_message(content) {
        Ok(t) => t,
        Err(msg) => {
            let mut m = chars_of("Invalid UTF-8 in spec file: ");
            append_str(&mut m, msg.as_str());
            return Err(WikiGenError::Parse { file: file_path.to_owned(), message: string_of(m.as_slice()) });
        },
    };
    match spec_type {
        ApiSpecType::Proto => parse_proto(text, file_path),
        _ => match (if spec_needs_json(file_path, spec_type) {
            Some(parse_json_text(text))
        } else {
            None
        }) {
            Some(Ok(doc)) => Ok(parse_openapi_document(&doc, file_path, spec_type)),
            Some(Err(e)) => {
                let mut m = chars_of("Failed to parse OpenAPI JSON: ");
                append_str(&mut m, e.as_str());
                Err(WikiGenError::Parse { file: file_path.to_owned(), message: string_of(m.as_slice()) })
            },
            None => {
                let e: Vec<Endpoint> = Vec::new();
                assert(endpoint_views(e@) =~= Seq::<EndpointView>::empty());
                Ok(ApiSpec { kind: kind_of(spec_type), file: file_path.to_owned(), endpoints: e })
            },
        },
    }
}

/// Whether `discover_api_spec` needs the content parsed as JSON.
pub fn spec_needs_json(file_path: &str, spec_type: ApiSpecType) -> (r: bool)
    ensures
        r == needs_json(file_path@, spec_type),
{
    if matches!(spec_type, ApiSpecType::Proto) {
        return false;
    }
    let p = chars_of(file_path);
    match extension_vec(&p) {
        Some(e) => eq_vec(&e, &chars_of("json")),
        None => false,
    }
}

} // verus!
