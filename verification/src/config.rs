//! Generator configuration and its defaults.

use vstd::prelude::*;

use crate::ir::Language;
use crate::text::{chars_of, eq_ignore_ascii_case, eq_ignore_ascii_case_vec, string_of};

verus! {

#[derive(Debug, Clone)]
pub struct WikiGenConfig {
    pub repo: RepoConfig,
    pub parse: ParseConfig,
    pub llm: LlmConfig,
    pub cache: CacheConfig,
    pub output: OutputConfig,
    pub export: ExportConfig,
}

/// A path that starts at the root (`Path::is_absolute` on Unix).
pub open spec fn is_absolute_path(p: Seq<char>) -> bool {
    p.len() > 0 && p[0] == '/'
}

/// `root.join(p)` on Unix: `p` itself when absolute, otherwise `p` appended
/// after a separator that is added unless `root` is empty or already ends with one.
pub open spec fn path_join(root: Seq<char>, p: Seq<char>) -> Seq<char> {
    if is_absolute_path(p) {
        p
    } else if root.len() == 0 || root.last() == '/' {
        root + p
    } else {
        root + seq!['/'] + p
    }
}

pub fn path_join_string(root: &str, p: &str) -> (r: String)
    ensures
        r@ == path_join(root@, p@),
{
    let rv = chars_of(root);
    let pv = chars_of(p);
    if pv.len() > 0 && pv[0] == '/' {
        return string_of(pv.as_slice());
    }
    let mut out = chars_of(root);
    if !(rv.len() == 0 || rv[rv.len() - 1] == '/') {
        out.push('/');
    }
    crate::text::append_vec(&mut out, &pv);
    string_of(out.as_slice())
}

impl WikiGenConfig {
    /// Every section at its default.
    pub fn default() -> (r: Self)
        ensures
            r.repo.spec_is_default(),
            r.parse.spec_is_default(),
            r.llm.spec_is_default(),
            r.cache.spec_is_default(),
            r.output.spec_is_default(),
            r.export.spec_is_default(),
    {
        WikiGenConfig {
            repo: RepoConfig::default(),
            parse: ParseConfig::default(),
            llm: LlmConfig::default(),
            cache: CacheConfig::default(),
            output: OutputConfig::default(),
            export: ExportConfig::default(),
        }
    }

    /// The output directory, resolved against the repository root when relative.
    pub fn resolved_output_dir(&self, repo_root: &str) -> (r: String)
        ensures
            r@ == path_join(repo_root@, self.output.output_dir@),
    {
        path_join_string(repo_root, self.output.output_dir.as_str())
    }

    /// The cache directory, resolved against the repository root when relative.
    pub fn resolved_cache_dir(&self, repo_root: &str) -> (r: String)
        ensures
            r@ == path_join(repo_root@, self.cache.cache_dir@),
    {
        path_join_string(repo_root, self.cache.cache_dir.as_str())
    }
}

#[derive(Debug, Clone)]
pub struct RepoConfig {
    pub root: String,
    pub include_patterns: Vec<String>,
    pub exclude_patterns: Vec<String>,
}

/// The directories left out of discovery unless configured otherwise.
pub open spec fn default_exclude_seq() -> Seq<Seq<char>> {
    seq![
        "**/generated/**"@,
        "**/vendor/**"@,
        "**/node_modules/**"@,
        "**/target/**"@,
        "**/__pycache__/**"@,
        "**/.git/**"@,
    ]
}

/// The views of a vector of strings.
pub open spec fn string_views(v: Seq<String>) -> Seq<Seq<char>> {
    Seq::new(v.len(), |i: int| v[i]@)
}

impl RepoConfig {
    pub open spec fn spec_is_default(&self) -> bool {
        &&& self.root@ == "."@
        &&& self.include_patterns@.len() == 0
        &&& string_views(self.exclude_patterns@) == default_exclude_seq()
    }

    pub fn default() -> (r: Self)
        ensures
            r.spec_is_default(),
    {
        RepoConfig {
            root: default_repo_root(),
            include_patterns: Vec::new(),
            exclude_patterns: default_exclude_patterns(),
        }
    }
}

fn default_repo_root() -> (r: String)
    ensures
        r@ == "."@,
{
    ".".to_owned()
}

fn default_exclude_patterns() -> (r: Vec<String>)
    ensures
        string_views(r@) == default_exclude_seq(),
{
    let mut v: Vec<String> = Vec::new();
    v.push("**/generated/**".to_owned());
    v.push("**/vendor/**".to_owned());
    v.push("**/node_modules/**".to_owned());
    v.push("**/target/**".to_owned());
    v.push("**/__pycache__/**".to_owned());
    v.push("**/.git/**".to_owned());
    assert(string_views(v@) =~= default_exclude_seq());
    v
}

#[derive(Debug, Clone)]
pub struct ParseConfig {
    pub languages: Vec<String>,
    pub max_file_size_kb: usize,
}

/// The configuration name under which a language is switched on
/// (JavaScript shares the TypeScript switch).
pub open spec fn language_key(lang: Language) -> Seq<char> {
    match lang {
        Language::Rust => "rust"@,
        Language::Python => "python"@,
        Language::Java => "java"@,
        Language::TypeScript | Language::JavaScript => "typescript"@,
        Language::Vue => "vue"@,
        Language::Html => "html"@,
    }
}

pub open spec fn default_language_seq() -> Seq<Seq<char>> {
    seq!["rust"@, "python"@, "java"@, "vue"@]
}

impl ParseConfig {
    pub open spec fn spec_is_default(&self) -> bool {
        &&& string_views(self.languages@) == default_language_seq()
        &&& self.max_file_size_kb == 512
    }

    pub fn default() -> (r: Self)
        ensures
            r.spec_is_default(),
    {
        ParseConfig { languages: default_languages(), max_file_size_kb: default_max_file_size() }
    }

    /// Some configured language name equals the language's key, ignoring ASCII case.
    pub open spec fn spec_language_enabled(&self, lang: Language) -> bool {
        exists|i: int|
            0 <= i < self.languages@.len() && eq_ignore_ascii_case(
                #[trigger] self.languages@[i]@,
                language_key(lang),
            )
    }

    pub fn language_enabled(&self, lang: Language) -> (r: bool)
        ensures
            r == self.spec_language_enabled(lang),
    {
        let name: &str = match lang {
            Language::Rust => "rust",
            Language::Python => "python",
            Language::Java => "java",
            Language::TypeScript | Language::JavaScript => "typescript",
            Language::Vue => "vue",
            Language::Html => "html",
        };
        let key = chars_of(name);
        let mut i: usize = 0;
        while i < self.languages.len()
            invariant
                i <= self.languages@.len(),
                key@ == language_key(lang),
                forall|k: int|
                    0 <= k < i ==> !eq_ignore_ascii_case(#[trigger] self.languages@[k]@, language_key(lang)),
            decreases self.languages.len() - i,
        {
            let l = chars_of(self.languages[i].as_str());
            if eq_ignore_ascii_case_vec(&l, &key) {
                return true;
            }
            i = i + 1;
        }
        false
    }
}

fn default_languages() -> (r: Vec<String>)
    ensures
        string_views(r@) == default_language_seq(),
{
    let mut v: Vec<String> = Vec::new();
    v.push("rust".to_owned());
    v.push("python".to_owned());
    v.push("java".to_owned());
    v.push("vue".to_owned());
    assert(string_views(v@) =~= default_language_seq());
    v
}

fn default_max_file_size() -> (r: usize)
    ensures
        r == 512,
{
    512
}

#[derive(Debug, Clone)]
pub struct LlmConfig {
    pub adapter: String,
    pub model: String,
    pub max_concurrent: usize,
    pub retry_max: usize,
    pub retry_backoff_ms: u64,
}

impl LlmConfig {
    pub open spec fn spec_is_default(&self) -> bool {
        &&& self.adapter@ == "openai"@
        &&& self.model@ == "gpt-4o"@
        &&& self.max_concurrent == 5
        &&& self.retry_max == 3
        &&& self.retry_backoff_ms == 1000
    }

    pub fn default() -> (r: Self)
        ensures
            r.spec_is_default(),
    {
        LlmConfig {
            adapter: default_adapter(),
            model: default_model(),
            max_concurrent: default_max_concurrent(),
            retry_max: default_retry_max(),
            retry_backoff_ms: default_retry_backoff_ms(),
        }
    }
}

fn default_adapter() -> (r: String)
    ensures
        r@ == "openai"@,
{
    "openai".to_owned()
}

fn default_model() -> (r: String)
    ensures
        r@ == "gpt-4o"@,
{
    "gpt-4o".to_owned()
}

fn default_max_concurrent() -> (r: usize)
    ensures
        r == 5,
{
    5
}

fn default_retry_max() -> (r: usize)
    ensures
        r == 3,
{
    3
}

fn default_retry_backoff_ms() -> (r: u64)
    ensures
        r == 1000,
{
    1000
}

#[derive(Debug, Clone)]
pub struct CacheConfig {
    pub enabled: bool,
    pub cache_dir: String,
}

impl CacheConfig {
    pub open spec fn spec_is_default(&self) -> bool {
        self.enabled && self.cache_dir@ == ".wiki-cache"@
    }

    pub fn default() -> (r: Self)
        ensures
            r.spec_is_default(),
    {
        CacheConfig { enabled: default_cache_enabled(), cache_dir: default_cache_dir() }
    }
}

fn default_cache_enabled() -> (r: bool)
    ensures
        r,
{
    true
}

fn default_cache_dir() -> (r: String)
    ensures
        r@ == ".wiki-cache"@,
{
    ".wiki-cache".to_owned()
}

#[derive(Debug, Clone)]
pub struct OutputConfig {
    pub format: String,
    pub output_dir: String,
    pub include_faq: bool,
}

impl OutputConfig {
    pub open spec fn spec_is_default(&self) -> bool {
        &&& self.format@ == "markdown"@
        &&& self.output_dir@ == "wiki-output"@
        &&& self.include_faq
    }

    pub fn default() -> (r: Self)
        ensures
            r.spec_is_default(),
    {
        OutputConfig {
            format: default_output_format(),
            output_dir: default_output_dir(),
            include_faq: default_include_faq(),
        }
    }
}

fn default_output_format() -> (r: String)
    ensures
        r@ == "markdown"@,
{
    "markdown".to_owned()
}

fn default_output_dir() -> (r: String)
    ensures
        r@ == "wiki-output"@,
{
    "wiki-output".to_owned()
}

fn default_include_faq() -> (r: bool)
    ensures
        r,
{
    true
}

#[derive(Debug, Clone)]
pub struct ExportConfig {
    pub target: String,
}

impl ExportConfig {
    pub open spec fn spec_is_default(&self) -> bool {
        self.target@ == "local"@
    }

    pub fn default() -> (r: Self)
        ensures
            r.spec_is_default(),
    {
        ExportConfig { target: default_export_target() }
    }
}

fn default_export_target() -> (r: String)
    ensures
        r@ == "local"@,
{
    "local".to_owned()
}

} // verus!
