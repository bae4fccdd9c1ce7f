//! Dependencies of Python projects: `pyproject.toml` and `requirements.txt`.

use vstd::prelude::*;

use crate::error::{WikiGenError, WikiGenResult};
use crate::ir::{Dependency, DependencyScope, Ecosystem, ManifestInfo};
use crate::json::{parse_toml_text, toml_document, JsonValue};
use crate::lang::ManifestType;
use crate::manifest::{dep_views, lemma_dep_views_push, make_dependency, DependencyView, ManifestView};
use crate::paths::{file_name, file_name_of};
use crate::text::{
    append_str, chars_of, eq_vec, find, find_vec, lemma_find_from_bounds, lines, lines_vec,
    single, split_first, split_first_vec, starts_with, starts_with_vec, string_of, subvec, trim,
    trim_vec, utf8_str_or_message, views,
};

verus! {

pub struct PythonExtractor;

/// The version separators tried, in order.
pub open spec fn pip_sep(k: int) -> Seq<char> {
    if k == 0 { ">="@ } else if k == 1 { "<="@ } else if k == 2 { "=="@ } else if k == 3 { "~="@ }
    else if k == 4 { "!="@ } else if k == 5 { ">"@ } else { "<"@ }
}

pub open spec fn pip_from(req: Seq<char>, k: int) -> (Seq<char>, Option<Seq<char>>)
    decreases 7 - k,
{
    if k < 0 || k >= 7 {
        (trim(split_first(req, seq![';'])), None)
    } else {
        match find(req, pip_sep(k)) {
            Some(idx) => (trim(req.subrange(0, idx)), Some(trim(req.subrange(idx, req.len() as int)))),
            None => pip_from(req, k + 1),
        }
    }
}

/// Name and version requirement of a requirement line: split at the first
/// separator (in the order `>= <= == ~= != > <`) that occurs, else the name
/// before any `;` marker and no version.
pub open spec fn spec_parse_pip_requirement(req: Seq<char>) -> (Seq<char>, Option<Seq<char>>) {
    pip_from(req, 0)
}

fn pip_sep_exec(k: usize) -> (r: &'static str)
    ensures
        r@ == pip_sep(k as int),
{
    if k == 0 { ">=" } else if k == 1 { "<=" } else if k == 2 { "==" } else if k == 3 { "~=" }
    else if k == 4 { "!=" } else if k == 5 { ">" } else { "<" }
}

pub fn parse_pip_requirement(req: &Vec<char>) -> (r: (Vec<char>, Option<Vec<char>>))
    ensures
        r.0@ == spec_parse_pip_requirement(req@).0,
        match spec_parse_pip_requirement(req@).1 {
            Some(v) => r.1 matches Some(x) && x@ == v,
            None => r.1 is None,
        },
{
    let mut k: usize = 0;
    while k < 7
        invariant
            k <= 7,
            pip_from(req@, 0) == pip_from(req@, k as int),
        decreases 7 - k,
    {
        let sep = chars_of(pip_sep_exec(k));
        match find_vec(req, &sep) {
            Some(idx) => {
                proof { lemma_find_from_bounds(req@, sep@, 0); }
                let a = subvec(req, 0, idx);
                let b = subvec(req, idx, req.len());
                return (trim_vec(&a), Some(trim_vec(&b)));
            },
            None => {},
        }
        k = k + 1;
    }
    let name = split_first_vec(req, &single(';'));
    (trim_vec(&name), None)
}

pub open spec fn pip_dependency(name: Seq<char>, version: Option<Seq<char>>, file: Seq<char>) -> DependencyView {
    DependencyView { name, version_req: version, scope: DependencyScope::Runtime, source_file: file, ecosystem: Ecosystem::Pip }
}

/// Requirements of the first `n` lines: blank lines, comments and options are skipped.
pub open spec fn requirements_upto(ls: Seq<Seq<char>>, n: int, file: Seq<char>) -> Seq<DependencyView>
    decreases n,
{
    if n <= 0 {
        Seq::empty()
    } else {
        let rest = requirements_upto(ls, n - 1, file);
        let t = trim(ls[n - 1]);
        if t.len() == 0 || starts_with(t, seq!['#']) || starts_with(t, seq!['-']) {
            rest
        } else {
            let (name, version) = spec_parse_pip_requirement(t);
            rest.push(pip_dependency(name, version, file))
        }
    }
}

/// Dependencies listed in `project.dependencies` (first `n` strings).
pub open spec fn project_deps(a: Seq<JsonValue>, n: int, file: Seq<char>) -> Seq<DependencyView>
    decreases n,
{
    if n <= 0 {
        Seq::empty()
    } else {
        let rest = project_deps(a, n - 1, file);
        match a[n - 1] {
            JsonValue::Str(s) => {
                let (name, version) = spec_parse_pip_requirement(s@);
                rest.push(pip_dependency(name, version, file))
            },
            _ => rest,
        }
    }
}

/// Dependencies of the first `n` entries of `tool.poetry.dependencies`, except `python`.
pub open spec fn poetry_deps(entries: Seq<(String, JsonValue)>, n: int, file: Seq<char>) -> Seq<DependencyView>
    decreases n,
{
    if n <= 0 {
        Seq::empty()
    } else {
        let rest = poetry_deps(entries, n - 1, file);
        if entries[n - 1].0@ == "python"@ {
            rest
        } else {
            rest.push(pip_dependency(entries[n - 1].0@, crate::manifest::cargo::spec_extract_version(entries[n - 1].1), file))
        }
    }
}

pub open spec fn pyproject_deps(doc: JsonValue, file: Seq<char>) -> Seq<DependencyView> {
    let project = match doc.spec_get("project"@) {
        Some(p) => match p.spec_get("dependencies"@) {
            Some(JsonValue::Array(a)) => project_deps(a@, a@.len() as int, file),
            _ => Seq::empty(),
        },
        None => Seq::empty(),
    };
    let poetry = match doc.spec_get("tool"@) {
        Some(t) => match t.spec_get("poetry"@) {
            Some(p) => match p.spec_get("dependencies"@) {
                Some(JsonValue::Object(e)) => poetry_deps(e@, e@.len() as int, file),
                _ => Seq::empty(),
            },
            None => Seq::empty(),
        },
        None => Seq::empty(),
    };
    project + poetry
}

pub open spec fn python_dependencies(text: Seq<char>, file: Seq<char>, parsed: Option<JsonValue>) -> Seq<DependencyView> {
    if file_name(file) == Some("pyproject.toml"@) {
        match parsed {
            Some(doc) => pyproject_deps(doc, file),
            None => Seq::empty(),
        }
    } else {
        requirements_upto(lines(text), lines(text).len() as int, file)
    }
}

fn push_pip(deps: &mut Vec<Dependency>, req: &Vec<char>, file_path: &str)
    ensures
        ({
            let (name, version) = spec_parse_pip_requirement(req@);
            dep_views(final(deps)@) == dep_views(old(deps)@).push(pip_dependency(name, version, file_path@))
        }),
{
    let (name, version) = parse_pip_requirement(req);
    let v = match version {
        Some(x) => Some(string_of(x.as_slice())),
        None => None,
    };
    let d = make_dependency(string_of(name.as_slice()), v, DependencyScope::Runtime, file_path, Ecosystem::Pip);
    let ghost b = deps@;
    deps.push(d);
    proof { lemma_dep_views_push(b, d); }
}

impl PythonExtractor {
    pub fn manifest_type(&self) -> (r: ManifestType)
        ensures
            r == ManifestType::PyprojectToml,
    {
        ManifestType::PyprojectToml
    }

    fn parse_requirements(&self, text: &Vec<char>, file_path: &str) -> (r: Vec<Dependency>)
        ensures
            dep_views(r@) == requirements_upto(lines(text@), lines(text@).len() as int, file_path@),
    {
        let ls = lines_vec(text);
        let mut deps: Vec<Dependency> = Vec::new();
        let mut i: usize = 0;
        while i < ls.len()
            invariant
                i <= ls@.len(),
                views(ls@) == lines(text@),
                dep_views(deps@) == requirements_upto(views(ls@), i as int, file_path@),
            decreases ls.len() - i,
        {
            let t = trim_vec(&ls[i]);
            assert(views(ls@)[i as int] == ls@[i as int]@);
            if t.len() == 0 || starts_with_vec(&t, &single('#')) || starts_with_vec(&t, &single('-')) {
            } else {
                push_pip(&mut deps, &t, file_path);
            }
            i = i + 1;
        }
        deps
    }

    fn parse_pyproject(&self, doc: &JsonValue, file_path: &str) -> (r: Vec<Dependency>)
        ensures
            dep_views(r@) == pyproject_deps(*doc, file_path@),
    {
        let mut deps: Vec<Dependency> = Vec::new();
        assert(dep_views(deps@) =~= Seq::<DependencyView>::empty());
        match doc.get("project") {
            Some(p) => match p.get("dependencies") {
                Some(JsonValue::Array(a)) => {
                    let mut i: usize = 0;
                    while i < a.len()
                        invariant
                            i <= a@.len(),
                            dep_views(deps@) == project_deps(a@, i as int, file_path@),
                        decreases a.len() - i,
                    {
                        match &a[i] {
                            JsonValue::Str(s) => {
                                let sv = chars_of(s.as_str());
                                push_pip(&mut deps, &sv, file_path);
                            },
                            _ => {},
                        }
                        i = i + 1;
                    }
                },
                _ => {},
            },
            None => {},
        }
        let ghost base = dep_views(deps@);
        match doc.get("tool") {
            Some(t) => match t.get("poetry") {
                Some(p) => match p.get("dependencies") {
                    Some(JsonValue::Object(e)) => {
                        let mut i: usize = 0;
                        while i < e.len()
                            invariant
                                i <= e@.len(),
                                dep_views(deps@) == base + poetry_deps(e@, i as int, file_path@),
                            decreases e.len() - i,
                        {
                            let name = chars_of(e[i].0.as_str());
                            if !eq_vec(&name, &chars_of("python")) {
                                let v: Option<String> = match &e[i].1 {
                                    JsonValue::Str(s) => Some(s.clone()),
                                    JsonValue::Object(_) => match e[i].1.get("version") {
                                        Some(x) => match x.as_str() {
                                            Some(s) => Some(s.clone()),
                                            None => None,
                                        },
                                        None => None,
                                    },
                                    _ => None,
                                };
                                let d = make_dependency(e[i].0.clone(), v, DependencyScope::Runtime, file_path, Ecosystem::Pip);
                                let ghost b = deps@;
                                deps.push(d);
                                proof { lemma_dep_views_push(b, d); }
                            }
                            i = i + 1;
                        }
                    },
                    _ => {},
                },
                None => {},
            },
            None => {},
        }
        assert(dep_views(deps@) =~= pyproject_deps(*doc, file_path@));
        deps
    }

    /// `pyproject.toml` dependencies (none when it does not parse as TOML) or
    /// requirement lines.
    pub fn extract(&self, content: &[u8], file_path: &str) -> (r: WikiGenResult<ManifestInfo>)
        ensures
            !vstd::utf8::valid_utf8(content@) ==> (r matches Err(WikiGenError::Parse { file, .. }) && file@ == file_path@),
            vstd::utf8::valid_utf8(content@) ==> (r matches Ok(m) && m@ == (ManifestView {
                ecosystem: Ecosystem::Pip,
                source_file: file_path@,
                dependencies: python_dependencies(
                    vstd::utf8::decode_utf8(content@),
                    file_path@,
                    match toml_document(vstd::utf8::decode_utf8(content@)) {
                        Ok(d) => Some(d),
                        Err(_) => None,
                    },
                ),
            })),
    {
        let text = match utf8_str_or_message(content) {
            Ok(t) => t,
            Err(msg) => {
                let mut m = chars_of("Invalid UTF-8: ");
                append_str(&mut m, msg.as_str());
                return Err(WikiGenError::Parse { file: file_path.to_owned(), message: string_of(m.as_slice()) });
            },
        };
        let name: Vec<char> = match file_name_of(file_path) {
            Some(n) => n,
            None => Vec::new(),
        };
        proof { reveal_strlit("pyproject.toml"); }
        let deps = if eq_vec(&name, &chars_of("pyproject.toml")) {
            match parse_toml_text(text) {
                Ok(doc) => self.parse_pyproject(&doc, file_path),
                Err(_) => Vec::new(),
            }
        } else {
            let tv = chars_of(text);
            self.parse_requirements(&tv, file_path)
        };
        proof {
            if file_name(file_path@) == Some("pyproject.toml"@) && toml_document(text@) is Err {
                assert(dep_views(deps@) =~= Seq::<DependencyView>::empty());
            }
        }
        Ok(ManifestInfo { ecosystem: Ecosystem::Pip, source_file: file_path.to_owned(), dependencies: deps })
    }
}

} // verus!
