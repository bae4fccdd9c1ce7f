//! Dependency extraction from package manifests.

pub mod cargo;
pub mod maven;
pub mod node;
pub mod python;

use vstd::prelude::*;

use crate::error::WikiGenResult;
use crate::ir::{Dependency, DependencyScope, Ecosystem, ManifestInfo};
use crate::json::{json_document, toml_document, JsonValue};
use crate::lang::ManifestType;

verus! {

pub struct DependencyView {
    pub name: Seq<char>,
    pub version_req: Option<Seq<char>>,
    pub scope: DependencyScope,
    pub source_file: Seq<char>,
    pub ecosystem: Ecosystem,
}

impl View for Dependency {
    type V = DependencyView;

    open spec fn view(&self) -> DependencyView {
        DependencyView {
            name: self.name@,
            version_req: match self.version_req {
                Some(v) => Some(v@),
                None => None,
            },
            scope: self.scope,
            source_file: self.source_file@,
            ecosystem: self.ecosystem,
        }
    }
}

pub open spec fn dep_views(v: Seq<Dependency>) -> Seq<DependencyView> {
    Seq::new(v.len(), |i: int| v[i]@)
}

pub proof fn lemma_dep_views_push(v: Seq<Dependency>, d: Dependency)
    ensures
        dep_views(v.push(d)) == dep_views(v).push(d@),
{
    assert(dep_views(v.push(d)) =~= dep_views(v).push(d@));
}

pub struct ManifestView {
    pub ecosystem: Ecosystem,
    pub source_file: Seq<char>,
    pub dependencies: Seq<DependencyView>,
}

impl View for ManifestInfo {
    type V = ManifestView;

    open spec fn view(&self) -> ManifestView {
        ManifestView { ecosystem: self.ecosystem, source_file: self.source_file@, dependencies: dep_views(self.dependencies@) }
    }
}

pub fn make_dependency(name: String, version_req: Option<String>, scope: DependencyScope, file_path: &str, ecosystem: Ecosystem) -> (r: Dependency)
    ensures
        r@ == (DependencyView {
            name: name@,
            version_req: match version_req {
                Some(v) => Some(v@),
                None => None,
            },
            scope,
            source_file: file_path@,
            ecosystem,
        }),
{
    Dependency { name, version_req, scope, source_file: file_path.to_owned(), ecosystem }
}

/// The extractor for a manifest type (Gradle files go to the Maven extractor).
pub enum ManifestExtractor {
    Cargo(cargo::CargoExtractor),
    Maven(maven::MavenExtractor),
    Node(node::NodeExtractor),
    Python(python::PythonExtractor),
}

pub fn create_extractor(manifest_type: ManifestType) -> (r: ManifestExtractor)
    ensures
        match manifest_type {
            ManifestType::CargoToml => r is Cargo,
            ManifestType::PomXml | ManifestType::BuildGradle => r is Maven,
            ManifestType::PackageJson => r is Node,
            ManifestType::PyprojectToml | ManifestType::RequirementsTxt => r is Python,
        },
{
    match manifest_type {
        ManifestType::CargoToml => ManifestExtractor::Cargo(cargo::CargoExtractor),
        ManifestType::PomXml => ManifestExtractor::Maven(maven::MavenExtractor),
        ManifestType::BuildGradle => ManifestExtractor::Maven(maven::MavenExtractor),
        ManifestType::PackageJson => ManifestExtractor::Node(node::NodeExtractor),
        ManifestType::PyprojectToml | ManifestType::RequirementsTxt => ManifestExtractor::Python(python::PythonExtractor),
    }
}

impl ManifestExtractor {
    /// The manifest's dependencies, read in the manifest's document format
    /// (TOML for `Cargo.toml` and `pyproject.toml`, JSON for `package.json`,
    /// XML and requirement lines as text).
    pub fn extract(&self, content: &[u8], file_path: &str) -> (r: WikiGenResult<ManifestInfo>)
        ensures
            !vstd::utf8::valid_utf8(content@) ==> (r matches Err(crate::error::WikiGenError::Parse { file, .. }) && file@ == file_path@),
            vstd::utf8::valid_utf8(content@) ==> match self {
                ManifestExtractor::Maven(_) => r matches Ok(m) && m@ == (ManifestView {
                    ecosystem: Ecosystem::Maven,
                    source_file: file_path@,
                    dependencies: maven::pom_dependencies(vstd::utf8::decode_utf8(content@), file_path@),
                }),
                ManifestExtractor::Python(_) => r matches Ok(m) && m@ == (ManifestView {
                    ecosystem: Ecosystem::Pip,
                    source_file: file_path@,
                    dependencies: python::python_dependencies(
                        vstd::utf8::decode_utf8(content@),
                        file_path@,
                        match toml_document(vstd::utf8::decode_utf8(content@)) { Ok(d) => Some(d), Err(_) => None },
                    ),
                }),
                ManifestExtractor::Cargo(_) => match toml_document(vstd::utf8::decode_utf8(content@)) {
                    Ok(doc) => r matches Ok(m) && m@ == (ManifestView {
                        ecosystem: Ecosystem::Cargo,
                        source_file: file_path@,
                        dependencies: cargo::cargo_dependencies(doc, file_path@),
                    }),
                    Err(e) => r matches Err(crate::error::WikiGenError::Parse { file, message }) && file@ == file_path@
                        && message@ == "Failed to parse Cargo.toml: "@ + e,
                },
                ManifestExtractor::Node(_) => match json_document(vstd::utf8::decode_utf8(content@)) {
                    Ok(doc) => r matches Ok(m) && m@ == (ManifestView {
                        ecosystem: Ecosystem::Npm,
                        source_file: file_path@,
                        dependencies: node::npm_dependencies(doc, file_path@),
                    }),
                    Err(e) => r matches Err(crate::error::WikiGenError::Parse { file, message }) && file@ == file_path@
                        && message@ == "Failed to parse package.json: "@ + e,
                },
            },
    {
        match self {
            ManifestExtractor::Cargo(x) => x.extract(content, file_path),
            ManifestExtractor::Maven(x) => x.extract(content, file_path),
            ManifestExtractor::Node(x) => x.extract(content, file_path),
            ManifestExtractor::Python(x) => x.extract(content, file_path),
        }
    }

    pub fn manifest_type(&self) -> (r: ManifestType)
        ensures
            r == (match self {
                ManifestExtractor::Cargo(_) => ManifestType::CargoToml,
                ManifestExtractor::Maven(_) => ManifestType::PomXml,
                ManifestExtractor::Node(_) => ManifestType::PackageJson,
                ManifestExtractor::Python(_) => ManifestType::PyprojectToml,
            }),
    {
        match self {
            ManifestExtractor::Cargo(_) => ManifestType::CargoToml,
            ManifestExtractor::Maven(_) => ManifestType::PomXml,
            ManifestExtractor::Node(_) => ManifestType::PackageJson,
            ManifestExtractor::Python(_) => ManifestType::PyprojectToml,
        }
    }
}

} // verus!
