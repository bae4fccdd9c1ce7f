//! Which files of a repository the generator reads. Walking the directory
//! tree is left to the caller, who hands each file found to [`FileDiscovery::consider`].

use vstd::prelude::*;

use crate::config::{string_views, WikiGenConfig};
use crate::lang::{detect_file, spec_file_type, DiscoveredFile};
use crate::text::{
    chars_of, contains, contains_vec, trim_end_matches, trim_end_matches_vec, trim_start_matches,
    trim_start_matches_vec,
};

verus! {

/// The text an exclusion pattern is matched by: the pattern without leading
/// `**/` and trailing `/**` and `/*`.
pub open spec fn pattern_core(p: Seq<char>) -> Seq<char> {
    trim_end_matches(trim_end_matches(trim_start_matches(p, "**/"@), "/**"@), "/*"@)
}

/// Whether a relative path holds the core of some exclusion pattern.
pub open spec fn spec_is_extra_excluded(rel: Seq<char>, patterns: Seq<Seq<char>>) -> bool {
    exists|i: int| 0 <= i < patterns.len() && contains(rel, pattern_core(#[trigger] patterns[i]))
}

fn pattern_core_vec(p: &str) -> (r: Vec<char>)
    ensures
        r@ == pattern_core(p@),
{
    let v = chars_of(p);
    let a = trim_start_matches_vec(&v, &chars_of("**/"));
    let b = trim_end_matches_vec(&a, &chars_of("/**"));
    trim_end_matches_vec(&b, &chars_of("/*"))
}

/// Whether an exclusion pattern leaves the path out.
pub fn is_extra_excluded(rel_str: &str, patterns: &[String]) -> (r: bool)
    ensures
        r == spec_is_extra_excluded(rel_str@, string_views(patterns@)),
{
    let rel = chars_of(rel_str);
    let ghost pv = string_views(patterns@);
    let mut k: usize = 0;
    while k < patterns.len()
        invariant
            k <= patterns@.len(),
            rel@ == rel_str@,
            pv == string_views(patterns@),
            forall|j: int| 0 <= j < k ==> !contains(rel_str@, pattern_core(#[trigger] pv[j])),
        decreases patterns@.len() - k,
    {
        let core = pattern_core_vec(patterns[k].as_str());
        assert(pv[k as int] == patterns@[k as int]@);
        if contains_vec(&rel, &core) {
            return true;
        }
        k = k + 1;
    }
    false
}

/// Finds the files of a repository that the generator reads.
pub struct FileDiscovery {
    config: WikiGenConfig,
}

/// The size limit in bytes.
pub open spec fn max_size_of(config: WikiGenConfig) -> int {
    config.parse.max_file_size_kb * 1024
}

impl FileDiscovery {
    pub fn new(config: WikiGenConfig) -> (r: Self)
        ensures
            r.spec_config() == config,
    {
        FileDiscovery { config }
    }

    pub closed spec fn spec_config(&self) -> WikiGenConfig {
        self.config
    }

    pub fn config(&self) -> (r: &WikiGenConfig)
        ensures
            *r == self.spec_config(),
    {
        &self.config
    }

    /// Decides on one file found by the walk, given its paths and its size when
    /// it could be read: it is left out when an exclusion pattern matches its
    /// relative path or it is larger than the limit; otherwise it is kept when
    /// its name or extension marks it as a source, manifest or API spec.
    pub fn consider(&self, absolute_path: String, relative_path: &str, size: Option<u64>) -> (r: Option<DiscoveredFile>)
        requires
            max_size_of(self.spec_config()) <= usize::MAX,
        ensures
            ({
                let c = self.spec_config();
                let left_out = spec_is_extra_excluded(relative_path@, string_views(c.repo.exclude_patterns@))
                    || (size matches Some(s) && s > max_size_of(c));
                if left_out {
                    r is None
                } else {
                    match spec_file_type(relative_path@, c.parse) {
                        Some(ft) => r matches Some(d) && d.file_type == ft && d.relative_path@ == relative_path@
                            && d.absolute_path@ == absolute_path@,
                        None => r is None,
                    }
                }
            }),
    {
        if is_extra_excluded(relative_path, self.config.repo.exclude_patterns.as_slice()) {
            return None;
        }
        let max: usize = self.config.parse.max_file_size_kb * 1024;
        match size {
            Some(s) => {
                if s > max as u64 {
                    return None;
                }
            },
            None => {},
        }
        match detect_file(relative_path, &self.config.parse) {
            Some(d) => Some(DiscoveredFile { absolute_path, relative_path: d.relative_path, file_type: d.file_type }),
            None => None,
        }
    }
}

} // verus!
