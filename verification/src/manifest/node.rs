//! Dependencies of a `package.json`.

use vstd::prelude::*;

use crate::error::{WikiGenError, WikiGenResult};
use crate::ir::{Dependency, DependencyScope, Ecosystem, ManifestInfo};
use crate::json::{json_document, parse_json_text, JsonValue};
use crate::lang::ManifestType;
use crate::manifest::{dep_views, lemma_dep_views_push, make_dependency, DependencyView, ManifestView};
use crate::text::{append_str, chars_of, string_of, utf8_str_or_message};

verus! {

pub struct NodeExtractor;

pub open spec fn object_deps(entries: Seq<(String, JsonValue)>, n: int, scope: DependencyScope, file: Seq<char>) -> Seq<DependencyView>
    decreases n,
{
    if n <= 0 {
        Seq::empty()
    } else {
        object_deps(entries, n - 1, scope, file).push(DependencyView {
            name: entries[n - 1].0@,
            version_req: entries[n - 1].1.spec_as_str(),
            scope,
            source_file: file,
            ecosystem: Ecosystem::Npm,
        })
    }
}

pub open spec fn npm_section(doc: JsonValue, key: Seq<char>, scope: DependencyScope, file: Seq<char>) -> Seq<DependencyView> {
    match doc.spec_get(key) {
        Some(JsonValue::Object(entries)) => object_deps(entries@, entries@.len() as int, scope, file),
        _ => Seq::empty(),
    }
}

pub open spec fn npm_dependencies(doc: JsonValue, file: Seq<char>) -> Seq<DependencyView> {
    npm_section(doc, "dependencies"@, DependencyScope::Runtime, file)
        + npm_section(doc, "devDependencies"@, DependencyScope::Dev, file)
}

fn push_section(deps: &mut Vec<Dependency>, doc: &JsonValue, key: &str, scope: DependencyScope, file_path: &str)
    ensures
        dep_views(final(deps)@) == dep_views(old(deps)@) + npm_section(*doc, key@, scope, file_path@),
{
    match doc.get(key) {
        Some(JsonValue::Object(entries)) => {
            let ghost base = dep_views(deps@);
            let mut i: usize = 0;
            while i < entries.len()
                invariant
                    i <= entries@.len(),
                    dep_views(deps@) == base + object_deps(entries@, i as int, scope, file_path@),
                decreases entries.len() - i,
            {
                let v: Option<String> = match entries[i].1.as_str() {
                    Some(s) => Some(s.clone()),
                    None => None,
                };
                let d = make_dependency(entries[i].0.clone(), v, scope, file_path, Ecosystem::Npm);
                let ghost b = deps@;
                deps.push(d);
                proof { lemma_dep_views_push(b, d); }
                i = i + 1;
            }
        },
        _ => {
            assert(dep_views(deps@) =~= dep_views(old(deps)@) + npm_section(*doc, key@, scope, file_path@));
        },
    }
}

impl NodeExtractor {
    pub fn manifest_type(&self) -> (r: ManifestType)
        ensures
            r == ManifestType::PackageJson,
    {
        ManifestType::PackageJson
    }

    /// Runtime and dev dependencies, each object in member order.
    ///
    /// `parsed` is the text parsed as JSON, or the parser's error message.
    pub fn extract(&self, content: &[u8], file_path: &str) -> (r: WikiGenResult<ManifestInfo>)
        ensures
            !vstd::utf8::valid_utf8(content@) ==> (r matches Err(WikiGenError::Parse { file, .. }) && file@ == file_path@),
            vstd::utf8::valid_utf8(content@) ==> match json_document(vstd::utf8::decode_utf8(content@)) {
                Ok(doc) => r matches Ok(m) && m@ == (ManifestView {
                    ecosystem: Ecosystem::Npm,
                    source_file: file_path@,
                    dependencies: npm_dependencies(doc, file_path@),
                }),
                Err(e) => r matches Err(WikiGenError::Parse { file, message }) && file@ == file_path@
                    && message@ == "Failed to parse package.json: "@ + e,
            },
    {
        let text = match utf8_str_or_message(content) {
            Ok(t) => t,
            Err(msg) => {
                let mut m = chars_of("Invalid UTF-8 in package.json: ");
                append_str(&mut m, msg.as_str());
                return Err(WikiGenError::Parse { file: file_path.to_owned(), message: string_of(m.as_slice()) });
            },
        };
        let doc = match parse_json_text(text) {
            Ok(d) => d,
            Err(e) => {
                let mut m = chars_of("Failed to parse package.json: ");
                append_str(&mut m, e.as_str());
                return Err(WikiGenError::Parse { file: file_path.to_owned(), message: string_of(m.as_slice()) });
            },
        };
        let mut deps: Vec<Dependency> = Vec::new();
        assert(dep_views(deps@) =~= Seq::<DependencyView>::empty());
        push_section(&mut deps, &doc, "dependencies", DependencyScope::Runtime, file_path);
        push_section(&mut deps, &doc, "devDependencies", DependencyScope::Dev, file_path);
        Ok(ManifestInfo { ecosystem: Ecosystem::Npm, source_file: file_path.to_owned(), dependencies: deps })
    }
}


// ---------------------------------------------------------------------------
// Laws
// ---------------------------------------------------------------------------

proof fn lemma_object_deps(entries: Seq<(String, JsonValue)>, n: int, scope: DependencyScope, file: Seq<char>)
    requires
        0 <= n <= entries.len(),
    ensures
        object_deps(entries, n, scope, file).len() == n,
        forall|i: int| 0 <= i < n ==> (#[trigger] object_deps(entries, n, scope, file)[i]).name == entries[i].0@
            && object_deps(entries, n, scope, file)[i].scope == scope,
    decreases n,
{
    if n > 0 {
        lemma_object_deps(entries, n - 1, scope, file);
        let a = object_deps(entries, n - 1, scope, file);
        assert forall|i: int| 0 <= i < n implies (#[trigger] object_deps(entries, n, scope, file)[i]).name
            == entries[i].0@ && object_deps(entries, n, scope, file)[i].scope == scope by {
            if i < n - 1 {
                assert(object_deps(entries, n, scope, file)[i] == a[i]);
            }
        }
    }
}

proof fn lemma_npm_section(doc: JsonValue, key: Seq<char>, scope: DependencyScope, file: Seq<char>)
    ensures
        forall|i: int| 0 <= i < npm_section(doc, key, scope, file).len() ==> (#[trigger] npm_section(doc, key, scope, file)[i]).scope
            == scope && crate::manifest::cargo::table_has(doc, key, npm_section(doc, key, scope, file)[i].name),
        forall|j: int| #![trigger npm_section(doc, key, scope, file)[j]] match doc.spec_get(key) {
            Some(JsonValue::Object(entries)) => 0 <= j < entries@.len() ==> (j < npm_section(doc, key, scope, file).len()
                && npm_section(doc, key, scope, file)[j].name == entries@[j].0@ && npm_section(doc, key, scope, file)[j].scope
                == scope),
            _ => true,
        },
{
    match doc.spec_get(key) {
        Some(JsonValue::Object(entries)) => {
            lemma_object_deps(entries@, entries@.len() as int, scope, file);
            let d = npm_section(doc, key, scope, file);
            assert forall|i: int| 0 <= i < d.len() implies (#[trigger] d[i]).scope == scope
                && crate::manifest::cargo::table_has(doc, key, d[i].name) by {
                assert(entries@[i].0@ == d[i].name);
            }
        },
        _ => {},
    }
}

/// Each dependency read from a `package.json` carries the scope of the
/// object it is listed in (`dependencies` Runtime, `devDependencies` Dev),
/// and every entry of either object is read under that scope.
pub proof fn law_npm_scopes(doc: JsonValue, file: Seq<char>)
    ensures
        forall|i: int| 0 <= i < npm_dependencies(doc, file).len() ==> {
            let d = #[trigger] npm_dependencies(doc, file)[i];
            ||| d.scope == DependencyScope::Runtime && crate::manifest::cargo::table_has(doc, "dependencies"@, d.name)
            ||| d.scope == DependencyScope::Dev && crate::manifest::cargo::table_has(doc, "devDependencies"@, d.name)
        },
        forall|name: Seq<char>| #[trigger] crate::manifest::cargo::table_has(doc, "devDependencies"@, name) ==> exists|i: int|
            0 <= i < npm_dependencies(doc, file).len() && (#[trigger] npm_dependencies(doc, file)[i]).name == name
                && npm_dependencies(doc, file)[i].scope == DependencyScope::Dev,
        forall|name: Seq<char>| #[trigger] crate::manifest::cargo::table_has(doc, "dependencies"@, name) ==> exists|i: int|
            0 <= i < npm_dependencies(doc, file).len() && (#[trigger] npm_dependencies(doc, file)[i]).name == name
                && npm_dependencies(doc, file)[i].scope == DependencyScope::Runtime,
{
    let r = npm_section(doc, "dependencies"@, DependencyScope::Runtime, file);
    let v = npm_section(doc, "devDependencies"@, DependencyScope::Dev, file);
    lemma_npm_section(doc, "dependencies"@, DependencyScope::Runtime, file);
    lemma_npm_section(doc, "devDependencies"@, DependencyScope::Dev, file);
    let all = npm_dependencies(doc, file);
    assert(all == r + v);
    assert forall|i: int| 0 <= i < all.len() implies {
        let d = #[trigger] all[i];
        ||| d.scope == DependencyScope::Runtime && crate::manifest::cargo::table_has(doc, "dependencies"@, d.name)
        ||| d.scope == DependencyScope::Dev && crate::manifest::cargo::table_has(doc, "devDependencies"@, d.name)
    } by {
        if i < r.len() {
            assert(all[i] == r[i]);
        } else {
            assert(all[i] == v[i - r.len()]);
        }
    }
    assert forall|name: Seq<char>| #[trigger] crate::manifest::cargo::table_has(doc, "devDependencies"@, name) implies exists|i: int|
        0 <= i < all.len() && (#[trigger] all[i]).name == name && all[i].scope == DependencyScope::Dev by {
        let entries = doc.spec_get("devDependencies"@)->0->Object_0;
        let j = choose|j: int| 0 <= j < entries@.len() && (#[trigger] entries@[j]).0@ == name;
        let i = r.len() + j;
        assert(all[i] == v[j]);
    }
    assert forall|name: Seq<char>| #[trigger] crate::manifest::cargo::table_has(doc, "dependencies"@, name) implies exists|i: int|
        0 <= i < all.len() && (#[trigger] all[i]).name == name && all[i].scope == DependencyScope::Runtime by {
        let entries = doc.spec_get("dependencies"@)->0->Object_0;
        let j = choose|j: int| 0 <= j < entries@.len() && (#[trigger] entries@[j]).0@ == name;
        assert(all[j] == r[j]);
    }
}

} // verus!
