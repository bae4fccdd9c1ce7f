//! Dependencies of a `Cargo.toml`.

use vstd::prelude::*;

use crate::error::{WikiGenError, WikiGenResult};
use crate::ir::{Dependency, DependencyScope, Ecosystem, ManifestInfo};
use crate::json::{parse_toml_text, toml_document, JsonValue};
use crate::lang::ManifestType;
use crate::manifest::{dep_views, lemma_dep_views_push, make_dependency, DependencyView, ManifestView};
use crate::text::{append_str, chars_of, string_of, utf8_str_or_message};

verus! {

pub struct CargoExtractor;

/// The version requirement of a dependency entry: the string itself, or the
/// `version` string of a detailed table.
pub open spec fn spec_extract_version(val: JsonValue) -> Option<Seq<char>> {
    match val {
        JsonValue::Str(s) => Some(s@),
        JsonValue::Object(_) => match val.spec_get("version"@) {
            Some(v) => v.spec_as_str(),
            None => None,
        },
        _ => None,
    }
}

/// The dependencies of the first `n` entries of a dependency table.
pub open spec fn table_deps(entries: Seq<(String, JsonValue)>, n: int, scope: DependencyScope, file: Seq<char>) -> Seq<DependencyView>
    decreases n,
{
    if n <= 0 {
        Seq::empty()
    } else {
        table_deps(entries, n - 1, scope, file).push(DependencyView {
            name: entries[n - 1].0@,
            version_req: spec_extract_version(entries[n - 1].1),
            scope,
            source_file: file,
            ecosystem: Ecosystem::Cargo,
        })
    }
}

/// The dependencies of the table under `key`, when it is a table.
pub open spec fn section_deps(doc: JsonValue, key: Seq<char>, scope: DependencyScope, file: Seq<char>) -> Seq<DependencyView> {
    match doc.spec_get(key) {
        Some(JsonValue::Object(entries)) => table_deps(entries@, entries@.len() as int, scope, file),
        _ => Seq::empty(),
    }
}

pub open spec fn cargo_dependencies(doc: JsonValue, file: Seq<char>) -> Seq<DependencyView> {
    section_deps(doc, "dependencies"@, DependencyScope::Runtime, file)
        + section_deps(doc, "dev-dependencies"@, DependencyScope::Dev, file)
        + section_deps(doc, "build-dependencies"@, DependencyScope::Build, file)
}

fn extract_version(val: &JsonValue) -> (r: Option<String>)
    ensures
        match spec_extract_version(*val) {
            Some(v) => r matches Some(x) && x@ == v,
            None => r is None,
        },
{
    match val {
        JsonValue::Str(s) => Some(s.clone()),
        JsonValue::Object(_) => match val.get("version") {
            Some(v) => match v.as_str() {
                Some(s) => Some(s.clone()),
                None => None,
            },
            None => None,
        },
        _ => None,
    }
}

fn push_section(deps: &mut Vec<Dependency>, doc: &JsonValue, key: &str, scope: DependencyScope, file_path: &str)
    ensures
        dep_views(final(deps)@) == dep_views(old(deps)@) + section_deps(*doc, key@, scope, file_path@),
{
    match doc.get(key) {
        Some(JsonValue::Object(entries)) => {
            let ghost base = dep_views(deps@);
            let mut i: usize = 0;
            while i < entries.len()
                invariant
                    i <= entries@.len(),
                    dep_views(deps@) == base + table_deps(entries@, i as int, scope, file_path@),
                decreases entries.len() - i,
            {
                let v = extract_version(&entries[i].1);
                let d = make_dependency(entries[i].0.clone(), v, scope, file_path, Ecosystem::Cargo);
                let ghost b = deps@;
                deps.push(d);
                proof { lemma_dep_views_push(b, d); }
                i = i + 1;
            }
        },
        _ => {
            assert(dep_views(deps@) =~= dep_views(old(deps)@) + section_deps(*doc, key@, scope, file_path@));
        },
    }
}

impl CargoExtractor {
    pub fn manifest_type(&self) -> (r: ManifestType)
        ensures
            r == ManifestType::CargoToml,
    {
        ManifestType::CargoToml
    }

    /// Runtime, dev and build dependencies, each section in table order.
    ///
    /// `parsed` is the text parsed as TOML, or the parser's error message.
    pub fn extract(&self, content: &[u8], file_path: &str) -> (r: WikiGenResult<ManifestInfo>)
        ensures
            !vstd::utf8::valid_utf8(content@) ==> (r matches Err(WikiGenError::Parse { file, .. }) && file@ == file_path@),
            vstd::utf8::valid_utf8(content@) ==> match toml_document(vstd::utf8::decode_utf8(content@)) {
                Ok(doc) => r matches Ok(m) && m@ == (ManifestView {
                    ecosystem: Ecosystem::Cargo,
                    source_file: file_path@,
                    dependencies: cargo_dependencies(doc, file_path@),
                }),
                Err(e) => r matches Err(WikiGenError::Parse { file, message }) && file@ == file_path@
                    && message@ == "Failed to parse Cargo.toml: "@ + e,
            },
    {
        let text = match utf8_str_or_message(content) {
            Ok(t) => t,
            Err(msg) => {
                let mut m = chars_of("Invalid UTF-8 in Cargo.toml: ");
                append_str(&mut m, msg.as_str());
                return Err(WikiGenError::Parse { file: file_path.to_owned(), message: string_of(m.as_slice()) });
            },
        };
        let doc = match parse_toml_text(text) {
            Ok(d) => d,
            Err(e) => {
                let mut m = chars_of("Failed to parse Cargo.toml: ");
                append_str(&mut m, e.as_str());
                return Err(WikiGenError::Parse { file: file_path.to_owned(), message: string_of(m.as_slice()) });
            },
        };
        let mut deps: Vec<Dependency> = Vec::new();
        assert(dep_views(deps@) =~= Seq::<DependencyView>::empty());
        push_section(&mut deps, &doc, "dependencies", DependencyScope::Runtime, file_path);
        push_section(&mut deps, &doc, "dev-dependencies", DependencyScope::Dev, file_path);
        push_section(&mut deps, &doc, "build-dependencies", DependencyScope::Build, file_path);
        Ok(ManifestInfo { ecosystem: Ecosystem::Cargo, source_file: file_path.to_owned(), dependencies: deps })
    }
}


// ---------------------------------------------------------------------------
// Laws
// ---------------------------------------------------------------------------

/// The table under `key` of a document holds an entry named `name`.
pub open spec fn table_has(doc: JsonValue, key: Seq<char>, name: Seq<char>) -> bool {
    match doc.spec_get(key) {
        Some(JsonValue::Object(entries)) => exists|j: int| 0 <= j < entries@.len() && (#[trigger] entries@[j]).0@ == name,
        _ => false,
    }
}

proof fn lemma_table_deps(entries: Seq<(String, JsonValue)>, n: int, scope: DependencyScope, file: Seq<char>)
    requires
        0 <= n <= entries.len(),
    ensures
        table_deps(entries, n, scope, file).len() == n,
        forall|i: int| 0 <= i < n ==> (#[trigger] table_deps(entries, n, scope, file)[i]).name == entries[i].0@
            && table_deps(entries, n, scope, file)[i].scope == scope,
    decreases n,
{
    if n > 0 {
        lemma_table_deps(entries, n - 1, scope, file);
        let a = table_deps(entries, n - 1, scope, file);
        assert forall|i: int| 0 <= i < n implies (#[trigger] table_deps(entries, n, scope, file)[i]).name
            == entries[i].0@ && table_deps(entries, n, scope, file)[i].scope == scope by {
            if i < n - 1 {
                assert(table_deps(entries, n, scope, file)[i] == a[i]);
            }
        }
    }
}

proof fn lemma_section_deps(doc: JsonValue, key: Seq<char>, scope: DependencyScope, file: Seq<char>)
    ensures
        forall|i: int| 0 <= i < section_deps(doc, key, scope, file).len() ==> (#[trigger] section_deps(doc, key, scope, file)[i]).scope
            == scope && table_has(doc, key, section_deps(doc, key, scope, file)[i].name),
        forall|j: int| #![trigger section_deps(doc, key, scope, file)[j]] match doc.spec_get(key) {
            Some(JsonValue::Object(entries)) => 0 <= j < entries@.len() ==> (j < section_deps(doc, key, scope, file).len()
                && section_deps(doc, key, scope, file)[j].name == entries@[j].0@ && section_deps(doc, key, scope, file)[j].scope
                == scope),
            _ => true,
        },
{
    match doc.spec_get(key) {
        Some(JsonValue::Object(entries)) => {
            lemma_table_deps(entries@, entries@.len() as int, scope, file);
            let d = section_deps(doc, key, scope, file);
            assert forall|i: int| 0 <= i < d.len() implies (#[trigger] d[i]).scope == scope && table_has(doc, key, d[i].name) by {
                assert(entries@[i].0@ == d[i].name);
            }
        },
        _ => {},
    }
}

/// Each dependency read from a `Cargo.toml` carries the scope of the table
/// it is listed in: `[dependencies]` gives Runtime, `[dev-dependencies]`
/// Dev, `[build-dependencies]` Build; and every entry of each of these tables
/// is read, under that table's scope.
pub proof fn law_cargo_scopes(doc: JsonValue, file: Seq<char>)
    ensures
        forall|i: int| 0 <= i < cargo_dependencies(doc, file).len() ==> {
            let d = #[trigger] cargo_dependencies(doc, file)[i];
            ||| d.scope == DependencyScope::Runtime && table_has(doc, "dependencies"@, d.name)
            ||| d.scope == DependencyScope::Dev && table_has(doc, "dev-dependencies"@, d.name)
            ||| d.scope == DependencyScope::Build && table_has(doc, "build-dependencies"@, d.name)
        },
        forall|name: Seq<char>| #[trigger] table_has(doc, "build-dependencies"@, name) ==> exists|i: int|
            0 <= i < cargo_dependencies(doc, file).len() && (#[trigger] cargo_dependencies(doc, file)[i]).name == name
                && cargo_dependencies(doc, file)[i].scope == DependencyScope::Build,
        forall|name: Seq<char>| #[trigger] table_has(doc, "dev-dependencies"@, name) ==> exists|i: int|
            0 <= i < cargo_dependencies(doc, file).len() && (#[trigger] cargo_dependencies(doc, file)[i]).name == name
                && cargo_dependencies(doc, file)[i].scope == DependencyScope::Dev,
        forall|name: Seq<char>| #[trigger] table_has(doc, "dependencies"@, name) ==> exists|i: int|
            0 <= i < cargo_dependencies(doc, file).len() && (#[trigger] cargo_dependencies(doc, file)[i]).name == name
                && cargo_dependencies(doc, file)[i].scope == DependencyScope::Runtime,
{
    let r = section_deps(doc, "dependencies"@, DependencyScope::Runtime, file);
    let v = section_deps(doc, "dev-dependencies"@, DependencyScope::Dev, file);
    let b = section_deps(doc, "build-dependencies"@, DependencyScope::Build, file);
    lemma_section_deps(doc, "dependencies"@, DependencyScope::Runtime, file);
    lemma_section_deps(doc, "dev-dependencies"@, DependencyScope::Dev, file);
    lemma_section_deps(doc, "build-dependencies"@, DependencyScope::Build, file);
    let all = cargo_dependencies(doc, file);
    assert(all == r + v + b);
    assert forall|i: int| 0 <= i < all.len() implies {
        let d = #[trigger] all[i];
        ||| d.scope == DependencyScope::Runtime && table_has(doc, "dependencies"@, d.name)
        ||| d.scope == DependencyScope::Dev && table_has(doc, "dev-dependencies"@, d.name)
        ||| d.scope == DependencyScope::Build && table_has(doc, "build-dependencies"@, d.name)
    } by {
        if i < r.len() {
            assert(all[i] == r[i]);
        } else if i < r.len() + v.len() {
            assert(all[i] == v[i - r.len()]);
        } else {
            assert(all[i] == b[i - r.len() - v.len()]);
        }
    }
    assert forall|name: Seq<char>| #[trigger] table_has(doc, "build-dependencies"@, name) implies exists|i: int|
        0 <= i < all.len() && (#[trigger] all[i]).name == name && all[i].scope == DependencyScope::Build by {
        let entries = doc.spec_get("build-dependencies"@)->0->Object_0;
        let j = choose|j: int| 0 <= j < entries@.len() && (#[trigger] entries@[j]).0@ == name;
        let i = r.len() + v.len() + j;
        assert(all[i] == b[j]);
    }
    assert forall|name: Seq<char>| #[trigger] table_has(doc, "dev-dependencies"@, name) implies exists|i: int|
        0 <= i < all.len() && (#[trigger] all[i]).name == name && all[i].scope == DependencyScope::Dev by {
        let entries = doc.spec_get("dev-dependencies"@)->0->Object_0;
        let j = choose|j: int| 0 <= j < entries@.len() && (#[trigger] entries@[j]).0@ == name;
        let i = r.len() + j;
        assert(all[i] == v[j]);
    }
    assert forall|name: Seq<char>| #[trigger] table_has(doc, "dependencies"@, name) implies exists|i: int|
        0 <= i < all.len() && (#[trigger] all[i]).name == name && all[i].scope == DependencyScope::Runtime by {
        let entries = doc.spec_get("dependencies"@)->0->Object_0;
        let j = choose|j: int| 0 <= j < entries@.len() && (#[trigger] entries@[j]).0@ == name;
        assert(all[j] == r[j]);
    }
}

} // verus!
