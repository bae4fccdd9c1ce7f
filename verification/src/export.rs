//! Writing the wiki out: where each page goes, and which pages an
//! incremental export can leave as they are. The writing itself is done by
//! the caller.

use vstd::prelude::*;

use crate::config::{path_join, path_join_string};
use crate::hashing::{compute_hash, spec_text_hash};
use crate::page_builder::GeneratedPage;
use crate::text::eq_vec;

verus! {

pub struct ExportOrchestrator;

/// Whether a page may be left as it is: a file is there already and its text
/// hashes as the page's does.
pub open spec fn skip_page(existing: Option<Seq<char>>, content: Seq<char>) -> bool {
    match existing {
        Some(t) => spec_text_hash(t) == spec_text_hash(content),
        None => false,
    }
}

impl ExportOrchestrator {
    /// The file a page is written to under the output directory.
    pub fn page_path(page: &GeneratedPage, output_dir: &str) -> (r: String)
        ensures
            r@ == path_join(output_dir@, page.path@),
    {
        path_join_string(output_dir, page.path.as_str())
    }

    /// Decides whether an incremental export can leave a page alone, given the
    /// text of the file already at its path (`None` when there is none or it
    /// cannot be read).
    pub fn should_skip_page(page: &GeneratedPage, existing: Option<&str>) -> (r: bool)
        ensures
            r == skip_page(match existing {
                Some(t) => Some(t@),
                None => None,
            }, page.content@),
    {
        match existing {
            Some(t) => {
                let a = compute_hash(t);
                let b = compute_hash(page.content.as_str());
                let av = crate::text::chars_of(a.as_str());
                let bv = crate::text::chars_of(b.as_str());
                eq_vec(&av, &bv)
            },
            None => false,
        }
    }
}

/// A page whose file already holds its text is left as it is by an
/// incremental export.
pub proof fn law_unchanged_page_is_skipped(content: Seq<char>)
    ensures
        skip_page(Some(content), content),
{
}

/// A page with no file at its path is always written.
pub proof fn law_missing_page_is_written(content: Seq<char>)
    ensures
        !skip_page(None, content),
{
}

} // verus!
