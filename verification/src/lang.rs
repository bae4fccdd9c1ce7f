//! Classification of repository files into sources, manifests and API specs.

use vstd::prelude::*;

use crate::config::ParseConfig;
use crate::ir::Language;
use crate::paths::{extension, extension_vec, file_name, file_name_vec, name_extension};
use crate::text::{chars_of, eq_vec};

verus! {

#[derive(Debug, Clone)]
pub struct DiscoveredFile {
    pub absolute_path: String,
    pub relative_path: String,
    pub file_type: FileType,
}

#[derive(Debug, Clone, Copy, PartialEq, Eq, Structural)]
pub enum FileType {
    Source(Language),
    Manifest(ManifestType),
    ApiSpec(ApiSpecType),
}

#[derive(Debug, Clone, Copy, PartialEq, Eq, Structural)]
pub enum ManifestType {
    CargoToml,
    PomXml,
    BuildGradle,
    PackageJson,
    PyprojectToml,
    RequirementsTxt,
}

#[derive(Debug, Clone, Copy, PartialEq, Eq, Structural)]
pub enum ApiSpecType {
    OpenApi,
    Swagger,
    Proto,
}

/// What a file is, judged by its name first and its extension second.
/// Sources count only when their language is switched on.
pub open spec fn spec_file_type(path: Seq<char>, config: ParseConfig) -> Option<FileType> {
    let name = match file_name(path) {
        Some(n) => n,
        None => Seq::empty(),
    };
    let ext = extension(path);
    if name == "Cargo.toml"@ {
        Some(FileType::Manifest(ManifestType::CargoToml))
    } else if name == "pom.xml"@ {
        Some(FileType::Manifest(ManifestType::PomXml))
    } else if name == "build.gradle"@ || name == "build.gradle.kts"@ {
        Some(FileType::Manifest(ManifestType::BuildGradle))
    } else if name == "package.json"@ {
        Some(FileType::Manifest(ManifestType::PackageJson))
    } else if name == "pyproject.toml"@ {
        Some(FileType::Manifest(ManifestType::PyprojectToml))
    } else if name == "requirements.txt"@ {
        Some(FileType::Manifest(ManifestType::RequirementsTxt))
    } else if name == "openapi.yaml"@ || name == "openapi.yml"@ || name == "openapi.json"@ {
        Some(FileType::ApiSpec(ApiSpecType::OpenApi))
    } else if name == "swagger.json"@ || name == "swagger.yaml"@ || name == "swagger.yml"@ {
        Some(FileType::ApiSpec(ApiSpecType::Swagger))
    } else if ext == Some("proto"@) {
        Some(FileType::ApiSpec(ApiSpecType::Proto))
    } else if ext == Some("rs"@) && config.spec_language_enabled(Language::Rust) {
        Some(FileType::Source(Language::Rust))
    } else if ext == Some("py"@) && config.spec_language_enabled(Language::Python) {
        Some(FileType::Source(Language::Python))
    } else if ext == Some("java"@) && config.spec_language_enabled(Language::Java) {
        Some(FileType::Source(Language::Java))
    } else if ext == Some("vue"@) && config.spec_language_enabled(Language::Vue) {
        Some(FileType::Source(Language::Vue))
    } else if (ext == Some("ts"@) || ext == Some("tsx"@)) && config.spec_language_enabled(
        Language::TypeScript,
    ) {
        Some(FileType::Source(Language::TypeScript))
    } else if (ext == Some("js"@) || ext == Some("jsx"@)) && config.spec_language_enabled(
        Language::JavaScript,
    ) {
        Some(FileType::Source(Language::JavaScript))
    } else if (ext == Some("html"@) || ext == Some("htm"@)) && config.spec_language_enabled(
        Language::Html,
    ) {
        Some(FileType::Source(Language::Html))
    } else {
        None
    }
}

fn is(v: &Vec<char>, lit: &str) -> (r: bool)
    ensures
        r == (v@ == lit@),
{
    let l = chars_of(lit);
    eq_vec(v, &l)
}

fn ext_is(e: &Option<Vec<char>>, lit: &str) -> (r: bool)
    ensures
        r == (match e {
            Some(v) => Some(v@),
            None => None::<Seq<char>>,
        } == Some(lit@)),
{
    match e {
        Some(v) => is(v, lit),
        None => false,
    }
}

/// The type of the file at `relative_path`, if it is one the generator reads.
pub fn detect_file(relative_path: &str, config: &ParseConfig) -> (r: Option<DiscoveredFile>)
    ensures
        match spec_file_type(relative_path@, *config) {
            Some(ft) => r matches Some(d) && d.file_type == ft && d.relative_path@ == relative_path@
                && d.absolute_path@.len() == 0,
            None => r is None,
        },
{
    let path = chars_of(relative_path);
    let name: Vec<char> = match file_name_vec(&path) {
        Some(n) => n,
        None => Vec::new(),
    };
    let ext = extension_vec(&path);
    let ghost e = match &ext {
        Some(v) => Some(v@),
        None => None::<Seq<char>>,
    };
    assert(e == extension(relative_path@));
    let ft: Option<FileType> = if is(&name, "Cargo.toml") {
        Some(FileType::Manifest(ManifestType::CargoToml))
    } else if is(&name, "pom.xml") {
        Some(FileType::Manifest(ManifestType::PomXml))
    } else if is(&name, "build.gradle") || is(&name, "build.gradle.kts") {
        Some(FileType::Manifest(ManifestType::BuildGradle))
    } else if is(&name, "package.json") {
        Some(FileType::Manifest(ManifestType::PackageJson))
    } else if is(&name, "pyproject.toml") {
        Some(FileType::Manifest(ManifestType::PyprojectToml))
    } else if is(&name, "requirements.txt") {
        Some(FileType::Manifest(ManifestType::RequirementsTxt))
    } else if is(&name, "openapi.yaml") || is(&name, "openapi.yml") || is(&name, "openapi.json") {
        Some(FileType::ApiSpec(ApiSpecType::OpenApi))
    } else if is(&name, "swagger.json") || is(&name, "swagger.yaml") || is(&name, "swagger.yml") {
        Some(FileType::ApiSpec(ApiSpecType::Swagger))
    } else if ext_is(&ext, "proto") {
        Some(FileType::ApiSpec(ApiSpecType::Proto))
    } else if ext_is(&ext, "rs") && config.language_enabled(Language::Rust) {
        Some(FileType::Source(Language::Rust))
    } else if ext_is(&ext, "py") && config.language_enabled(Language::Python) {
        Some(FileType::Source(Language::Python))
    } else if ext_is(&ext, "java") && config.language_enabled(Language::Java) {
        Some(FileType::Source(Language::Java))
    } else if ext_is(&ext, "vue") && config.language_enabled(Language::Vue) {
        Some(FileType::Source(Language::Vue))
    } else if (ext_is(&ext, "ts") || ext_is(&ext, "tsx")) && config.language_enabled(
        Language::TypeScript,
    ) {
        Some(FileType::Source(Language::TypeScript))
    } else if (ext_is(&ext, "js") || ext_is(&ext, "jsx")) && config.language_enabled(
        Language::JavaScript,
    ) {
        Some(FileType::Source(Language::JavaScript))
    } else if (ext_is(&ext, "html") || ext_is(&ext, "htm")) && config.language_enabled(
        Language::Html,
    ) {
        Some(FileType::Source(Language::Html))
    } else {
        None
    };
    match ft {
        Some(t) => Some(
            DiscoveredFile {
                absolute_path: String::new(),
                relative_path: relative_path.to_owned(),
                file_type: t,
            },
        ),
        None => None,
    }
}


// ---------------------------------------------------------------------------
// Laws
// ---------------------------------------------------------------------------

/// A name with a two-letter extension has a `.` three characters from its end.
proof fn lemma_two_letter_extension(n: Seq<char>, e: Seq<char>)
    requires
        name_extension(n) == Some(e),
        e.len() == 2,
    ensures
        n.len() >= 3,
        n[n.len() - 3] == '.',
{
    crate::text::lemma_rfind_before_bounds(n, seq!['.'], n.len() as int);
    let k = crate::text::rfind_before(n, seq!['.'], n.len() as int)->0;
    assert(n.subrange(k, k + 1) == seq!['.']);
    assert(n.subrange(k, k + 1)[0] == n[k]);
    assert(n.subrange(k + 1, n.len() as int).len() == 2);
}

/// No manifest or spec file name the generator knows has a two-letter extension.
proof fn lemma_known_names_not_two_letter(path: Seq<char>, e: Seq<char>)
    requires
        extension(path) == Some(e),
        e.len() == 2,
    ensures
        ({
            let n = match file_name(path) {
                Some(x) => x,
                None => Seq::empty(),
            };
            &&& n != "Cargo.toml"@ && n != "pom.xml"@ && n != "build.gradle"@ && n != "build.gradle.kts"@
            &&& n != "package.json"@ && n != "pyproject.toml"@ && n != "requirements.txt"@
            &&& n != "openapi.yaml"@ && n != "openapi.yml"@ && n != "openapi.json"@
            &&& n != "swagger.json"@ && n != "swagger.yaml"@ && n != "swagger.yml"@
        }),
{
    reveal_strlit("Cargo.toml");
    reveal_strlit("pom.xml");
    reveal_strlit("build.gradle");
    reveal_strlit("build.gradle.kts");
    reveal_strlit("package.json");
    reveal_strlit("pyproject.toml");
    reveal_strlit("requirements.txt");
    reveal_strlit("openapi.yaml");
    reveal_strlit("openapi.yml");
    reveal_strlit("openapi.json");
    reveal_strlit("swagger.json");
    reveal_strlit("swagger.yaml");
    reveal_strlit("swagger.yml");
    let n = file_name(path)->0;
    lemma_two_letter_extension(n, e);
    {
        assert(n != "Cargo.toml"@) by { if n == "Cargo.toml"@ { assert("Cargo.toml"@[7] != '.'); } }
        assert(n != "pom.xml"@) by { if n == "pom.xml"@ { assert("pom.xml"@[4] != '.'); } }
        assert(n != "build.gradle"@) by { if n == "build.gradle"@ { assert("build.gradle"@[9] != '.'); } }
        assert(n != "build.gradle.kts"@) by { if n == "build.gradle.kts"@ { assert("build.gradle.kts"@[13] != '.'); } }
        assert(n != "package.json"@) by { if n == "package.json"@ { assert("package.json"@[9] != '.'); } }
        assert(n != "pyproject.toml"@) by { if n == "pyproject.toml"@ { assert("pyproject.toml"@[11] != '.'); } }
        assert(n != "requirements.txt"@) by { if n == "requirements.txt"@ { assert("requirements.txt"@[13] != '.'); } }
        assert(n != "openapi.yaml"@) by { if n == "openapi.yaml"@ { assert("openapi.yaml"@[9] != '.'); } }
        assert(n != "openapi.yml"@) by { if n == "openapi.yml"@ { assert("openapi.yml"@[8] != '.'); } }
        assert(n != "openapi.json"@) by { if n == "openapi.json"@ { assert("openapi.json"@[9] != '.'); } }
        assert(n != "swagger.json"@) by { if n == "swagger.json"@ { assert("swagger.json"@[9] != '.'); } }
        assert(n != "swagger.yaml"@) by { if n == "swagger.yaml"@ { assert("swagger.yaml"@[9] != '.'); } }
        assert(n != "swagger.yml"@) by { if n == "swagger.yml"@ { assert("swagger.yml"@[8] != '.'); } }
    }
}

/// A file with extension `py`, `rs`, `ts` or `js` is a source file of that
/// language (Python, Rust, TypeScript, JavaScript) when the language is
/// switched on in the configuration, and is not read when it is off.
pub proof fn law_source_extension(path: Seq<char>, config: ParseConfig)
    ensures
        extension(path) == Some("py"@) ==> spec_file_type(path, config) == (if config.spec_language_enabled(
            Language::Python,
        ) {
            Some(FileType::Source(Language::Python))
        } else {
            None
        }),
        extension(path) == Some("rs"@) ==> spec_file_type(path, config) == (if config.spec_language_enabled(
            Language::Rust,
        ) {
            Some(FileType::Source(Language::Rust))
        } else {
            None
        }),
        extension(path) == Some("ts"@) ==> spec_file_type(path, config) == (if config.spec_language_enabled(
            Language::TypeScript,
        ) {
            Some(FileType::Source(Language::TypeScript))
        } else {
            None
        }),
        extension(path) == Some("js"@) ==> spec_file_type(path, config) == (if config.spec_language_enabled(
            Language::JavaScript,
        ) {
            Some(FileType::Source(Language::JavaScript))
        } else {
            None
        }),
{
    reveal_strlit("py");
    reveal_strlit("rs");
    reveal_strlit("ts");
    reveal_strlit("js");
    reveal_strlit("proto");
    reveal_strlit("java");
    reveal_strlit("vue");
    reveal_strlit("tsx");
    reveal_strlit("jsx");
    reveal_strlit("html");
    reveal_strlit("htm");
    if extension(path) is Some {
        let e = extension(path)->0;
        if e.len() == 2 {
            lemma_known_names_not_two_letter(path, e);
        }
    }
    assert("py"@ != "rs"@) by { assert("py"@[0] != "rs"@[0]); }
    assert("py"@ != "ts"@) by { assert("py"@[0] != "ts"@[0]); }
    assert("py"@ != "js"@) by { assert("py"@[0] != "js"@[0]); }
    assert("rs"@ != "ts"@) by { assert("rs"@[0] != "ts"@[0]); }
    assert("rs"@ != "js"@) by { assert("rs"@[0] != "js"@[0]); }
    assert("ts"@ != "js"@) by { assert("ts"@[0] != "js"@[0]); }
}


/// A name with an extension ends with a `.` and the extension.
proof fn lemma_extension_suffix(n: Seq<char>, e: Seq<char>)
    requires
        name_extension(n) == Some(e),
    ensures
        n.len() >= e.len() + 1,
        n[n.len() - e.len() - 1] == '.',
        forall|j: int| 0 <= j < e.len() ==> #[trigger] e[j] == n[n.len() - e.len() + j],
{
    crate::text::lemma_rfind_before_bounds(n, seq!['.'], n.len() as int);
    let k = crate::text::rfind_before(n, seq!['.'], n.len() as int)->0;
    assert(n.subrange(k, k + 1) == seq!['.']);
    assert(n.subrange(k, k + 1)[0] == n[k]);
    assert forall|j: int| 0 <= j < e.len() implies #[trigger] e[j] == n[n.len() - e.len() + j] by {
        assert(e == n.subrange(k + 1, n.len() as int));
    }
}

/// No manifest or spec file name the generator knows has one of the longer
/// source extensions.
proof fn lemma_known_names_not_source(path: Seq<char>, e: Seq<char>)
    requires
        extension(path) == Some(e),
        e == "java"@ || e == "vue"@ || e == "tsx"@ || e == "jsx"@ || e == "html"@ || e == "htm"@ || e == "proto"@,
    ensures
        ({
            let n = match file_name(path) {
                Some(x) => x,
                None => Seq::empty(),
            };
            &&& n != "Cargo.toml"@ && n != "pom.xml"@ && n != "build.gradle"@ && n != "build.gradle.kts"@
            &&& n != "package.json"@ && n != "pyproject.toml"@ && n != "requirements.txt"@
            &&& n != "openapi.yaml"@ && n != "openapi.yml"@ && n != "openapi.json"@
            &&& n != "swagger.json"@ && n != "swagger.yaml"@ && n != "swagger.yml"@
        }),
{
    reveal_strlit("Cargo.toml");
    reveal_strlit("pom.xml");
    reveal_strlit("build.gradle");
    reveal_strlit("build.gradle.kts");
    reveal_strlit("package.json");
    reveal_strlit("pyproject.toml");
    reveal_strlit("requirements.txt");
    reveal_strlit("openapi.yaml");
    reveal_strlit("openapi.yml");
    reveal_strlit("openapi.json");
    reveal_strlit("swagger.json");
    reveal_strlit("swagger.yaml");
    reveal_strlit("swagger.yml");
    reveal_strlit("java");
    reveal_strlit("vue");
    reveal_strlit("tsx");
    reveal_strlit("jsx");
    reveal_strlit("html");
    reveal_strlit("htm");
    reveal_strlit("proto");
    let n = file_name(path)->0;
    lemma_extension_suffix(n, e);
    assert(n != "Cargo.toml"@) by { if n == "Cargo.toml"@ { assert(n[n.len() - e.len() - 1] == '.'); assert(e[0] == n[n.len() - e.len()]); assert(e[1] == n[n.len() - e.len() + 1]); } }
    assert(n != "pom.xml"@) by { if n == "pom.xml"@ { assert(n[n.len() - e.len() - 1] == '.'); assert(e[0] == n[n.len() - e.len()]); assert(e[1] == n[n.len() - e.len() + 1]); } }
    assert(n != "build.gradle"@) by { if n == "build.gradle"@ { assert(n[n.len() - e.len() - 1] == '.'); assert(e[0] == n[n.len() - e.len()]); assert(e[1] == n[n.len() - e.len() + 1]); } }
    assert(n != "build.gradle.kts"@) by { if n == "build.gradle.kts"@ { assert(n[n.len() - e.len() - 1] == '.'); assert(e[0] == n[n.len() - e.len()]); assert(e[1] == n[n.len() - e.len() + 1]); } }
    assert(n != "package.json"@) by { if n == "package.json"@ { assert(n[n.len() - e.len() - 1] == '.'); assert(e[0] == n[n.len() - e.len()]); assert(e[1] == n[n.len() - e.len() + 1]); } }
    assert(n != "pyproject.toml"@) by { if n == "pyproject.toml"@ { assert(n[n.len() - e.len() - 1] == '.'); assert(e[0] == n[n.len() - e.len()]); assert(e[1] == n[n.len() - e.len() + 1]); } }
    assert(n != "requirements.txt"@) by { if n == "requirements.txt"@ { assert(n[n.len() - e.len() - 1] == '.'); assert(e[0] == n[n.len() - e.len()]); assert(e[1] == n[n.len() - e.len() + 1]); } }
    assert(n != "openapi.yaml"@) by { if n == "openapi.yaml"@ { assert(n[n.len() - e.len() - 1] == '.'); assert(e[0] == n[n.len() - e.len()]); assert(e[1] == n[n.len() - e.len() + 1]); } }
    assert(n != "openapi.yml"@) by { if n == "openapi.yml"@ { assert(n[n.len() - e.len() - 1] == '.'); assert(e[0] == n[n.len() - e.len()]); assert(e[1] == n[n.len() - e.len() + 1]); } }
    assert(n != "openapi.json"@) by { if n == "openapi.json"@ { assert(n[n.len() - e.len() - 1] == '.'); assert(e[0] == n[n.len() - e.len()]); assert(e[1] == n[n.len() - e.len() + 1]); } }
    assert(n != "swagger.json"@) by { if n == "swagger.json"@ { assert(n[n.len() - e.len() - 1] == '.'); assert(e[0] == n[n.len() - e.len()]); assert(e[1] == n[n.len() - e.len() + 1]); } }
    assert(n != "swagger.yaml"@) by { if n == "swagger.yaml"@ { assert(n[n.len() - e.len() - 1] == '.'); assert(e[0] == n[n.len() - e.len()]); assert(e[1] == n[n.len() - e.len() + 1]); } }
    assert(n != "swagger.yml"@) by { if n == "swagger.yml"@ { assert(n[n.len() - e.len() - 1] == '.'); assert(e[0] == n[n.len() - e.len()]); assert(e[1] == n[n.len() - e.len() + 1]); } }
}

/// A file with extension `java`, `vue`, `tsx`, `jsx`, `html` or `htm` is a
/// source file of that language (Java, Vue, TypeScript, JavaScript, HTML)
/// when the language is switched on, and is not read when it is off; a
/// `proto` file is an API spec.
pub proof fn law_source_extension_long(path: Seq<char>, config: ParseConfig)
    ensures
        extension(path) == Some("java"@) ==> spec_file_type(path, config) == (if config.spec_language_enabled(
            Language::Java,
        ) {
            Some(FileType::Source(Language::Java))
        } else {
            None
        }),
        extension(path) == Some("vue"@) ==> spec_file_type(path, config) == (if config.spec_language_enabled(
            Language::Vue,
        ) {
            Some(FileType::Source(Language::Vue))
        } else {
            None
        }),
        extension(path) == Some("tsx"@) ==> spec_file_type(path, config) == (if config.spec_language_enabled(
            Language::TypeScript,
        ) {
            Some(FileType::Source(Language::TypeScript))
        } else {
            None
        }),
        extension(path) == Some("jsx"@) ==> spec_file_type(path, config) == (if config.spec_language_enabled(
            Language::JavaScript,
        ) {
            Some(FileType::Source(Language::JavaScript))
        } else {
            None
        }),
        extension(path) == Some("html"@) || extension(path) == Some("htm"@) ==> spec_file_type(path, config) == (
        if config.spec_language_enabled(Language::Html) {
            Some(FileType::Source(Language::Html))
        } else {
            None
        }),
        extension(path) == Some("proto"@) ==> spec_file_type(path, config) == Some(FileType::ApiSpec(ApiSpecType::Proto)),
{
    reveal_strlit("py");
    reveal_strlit("rs");
    reveal_strlit("ts");
    reveal_strlit("js");
    reveal_strlit("java");
    reveal_strlit("vue");
    reveal_strlit("tsx");
    reveal_strlit("jsx");
    reveal_strlit("html");
    reveal_strlit("htm");
    reveal_strlit("proto");
    assert("py"@.len() == 2);
    assert("rs"@.len() == 2);
    assert("ts"@.len() == 2);
    assert("js"@.len() == 2);
    assert("java"@.len() == 4);
    assert("vue"@.len() == 3);
    assert("tsx"@.len() == 3);
    assert("jsx"@.len() == 3);
    assert("html"@.len() == 4);
    assert("htm"@.len() == 3);
    assert("proto"@.len() == 5);
    if extension(path) is Some {
        let e = extension(path)->0;
        if e == "java"@ || e == "vue"@ || e == "tsx"@ || e == "jsx"@ || e == "html"@ || e == "htm"@ || e == "proto"@ {
            lemma_known_names_not_source(path, e);
        }
    }
    assert("tsx"@ != "jsx"@) by { assert("tsx"@[0] != "jsx"@[0]); }
    assert("vue"@ != "tsx"@) by { assert("vue"@[0] != "tsx"@[0]); }
    assert("vue"@ != "jsx"@) by { assert("vue"@[0] != "jsx"@[0]); }
    assert("htm"@ != "vue"@) by { assert("htm"@[0] != "vue"@[0]); }
    assert("htm"@ != "tsx"@) by { assert("htm"@[0] != "tsx"@[0]); }
    assert("htm"@ != "jsx"@) by { assert("htm"@[0] != "jsx"@[0]); }
    assert("java"@ != "html"@) by { assert("java"@[0] != "html"@[0]); }
}


/// A manifest or API spec is known by its file name alone, whatever the
/// configuration: `Cargo.toml`, `pom.xml`, `build.gradle(.kts)`,
/// `package.json`, `pyproject.toml` and `requirements.txt` are manifests of
/// their kind; `openapi.*` and `swagger.*` (YAML or JSON) are OpenAPI and
/// Swagger specs.
pub proof fn law_known_file_names(path: Seq<char>, config: ParseConfig)
    ensures
        file_name(path) == Some("Cargo.toml"@) ==> spec_file_type(path, config) == Some(FileType::Manifest(ManifestType::CargoToml)),
        file_name(path) == Some("pom.xml"@) ==> spec_file_type(path, config) == Some(FileType::Manifest(ManifestType::PomXml)),
        file_name(path) == Some("build.gradle"@) ==> spec_file_type(path, config) == Some(FileType::Manifest(ManifestType::BuildGradle)),
        file_name(path) == Some("build.gradle.kts"@) ==> spec_file_type(path, config) == Some(FileType::Manifest(ManifestType::BuildGradle)),
        file_name(path) == Some("package.json"@) ==> spec_file_type(path, config) == Some(FileType::Manifest(ManifestType::PackageJson)),
        file_name(path) == Some("pyproject.toml"@) ==> spec_file_type(path, config) == Some(FileType::Manifest(ManifestType::PyprojectToml)),
        file_name(path) == Some("requirements.txt"@) ==> spec_file_type(path, config) == Some(FileType::Manifest(ManifestType::RequirementsTxt)),
        file_name(path) == Some("openapi.yaml"@) ==> spec_file_type(path, config) == Some(FileType::ApiSpec(ApiSpecType::OpenApi)),
        file_name(path) == Some("openapi.yml"@) ==> spec_file_type(path, config) == Some(FileType::ApiSpec(ApiSpecType::OpenApi)),
        file_name(path) == Some("openapi.json"@) ==> spec_file_type(path, config) == Some(FileType::ApiSpec(ApiSpecType::OpenApi)),
        file_name(path) == Some("swagger.json"@) ==> spec_file_type(path, config) == Some(FileType::ApiSpec(ApiSpecType::Swagger)),
        file_name(path) == Some("swagger.yaml"@) ==> spec_file_type(path, config) == Some(FileType::ApiSpec(ApiSpecType::Swagger)),
        file_name(path) == Some("swagger.yml"@) ==> spec_file_type(path, config) == Some(FileType::ApiSpec(ApiSpecType::Swagger)),
{
    reveal_strlit("Cargo.toml");
    assert("Cargo.toml"@.len() == 10);
    reveal_strlit("pom.xml");
    assert("pom.xml"@.len() == 7);
    reveal_strlit("build.gradle");
    assert("build.gradle"@.len() == 12);
    reveal_strlit("build.gradle.kts");
    assert("build.gradle.kts"@.len() == 16);
    reveal_strlit("package.json");
    assert("package.json"@.len() == 12);
    reveal_strlit("pyproject.toml");
    assert("pyproject.toml"@.len() == 14);
    reveal_strlit("requirements.txt");
    assert("requirements.txt"@.len() == 16);
    reveal_strlit("openapi.yaml");
    assert("openapi.yaml"@.len() == 12);
    reveal_strlit("openapi.yml");
    assert("openapi.yml"@.len() == 11);
    reveal_strlit("openapi.json");
    assert("openapi.json"@.len() == 12);
    reveal_strlit("swagger.json");
    assert("swagger.json"@.len() == 12);
    reveal_strlit("swagger.yaml");
    assert("swagger.yaml"@.len() == 12);
    reveal_strlit("swagger.yml");
    assert("swagger.yml"@.len() == 11);
    assert("build.gradle"@ != "package.json"@) by { assert("build.gradle"@[0] != "package.json"@[0]); }
    assert("build.gradle"@ != "openapi.yaml"@) by { assert("build.gradle"@[0] != "openapi.yaml"@[0]); }
    assert("build.gradle"@ != "openapi.json"@) by { assert("build.gradle"@[0] != "openapi.json"@[0]); }
    assert("build.gradle"@ != "swagger.json"@) by { assert("build.gradle"@[0] != "swagger.json"@[0]); }
    assert("build.gradle"@ != "swagger.yaml"@) by { assert("build.gradle"@[0] != "swagger.yaml"@[0]); }
    assert("build.gradle.kts"@ != "requirements.txt"@) by { assert("build.gradle.kts"@[0] != "requirements.txt"@[0]); }
    assert("package.json"@ != "openapi.yaml"@) by { assert("package.json"@[0] != "openapi.yaml"@[0]); }
    assert("package.json"@ != "openapi.json"@) by { assert("package.json"@[0] != "openapi.json"@[0]); }
    assert("package.json"@ != "swagger.json"@) by { assert("package.json"@[0] != "swagger.json"@[0]); }
    assert("package.json"@ != "swagger.yaml"@) by { assert("package.json"@[0] != "swagger.yaml"@[0]); }
    assert("openapi.yaml"@ != "openapi.json"@) by { assert("openapi.yaml"@[8] != "openapi.json"@[8]); }
    assert("openapi.yaml"@ != "swagger.json"@) by { assert("openapi.yaml"@[0] != "swagger.json"@[0]); }
    assert("openapi.yaml"@ != "swagger.yaml"@) by { assert("openapi.yaml"@[0] != "swagger.yaml"@[0]); }
    assert("openapi.yml"@ != "swagger.yml"@) by { assert("openapi.yml"@[0] != "swagger.yml"@[0]); }
    assert("openapi.json"@ != "swagger.json"@) by { assert("openapi.json"@[0] != "swagger.json"@[0]); }
    assert("openapi.json"@ != "swagger.yaml"@) by { assert("openapi.json"@[0] != "swagger.yaml"@[0]); }
    assert("swagger.json"@ != "swagger.yaml"@) by { assert("swagger.json"@[8] != "swagger.yaml"@[8]); }
}

} // verus!
