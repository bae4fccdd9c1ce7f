//! The index written beside the wiki: each page with the hash of its text.

use vstd::prelude::*;

use crate::cache::now_rfc3339;
use crate::config::string_views;
use crate::evidence::EvidenceRef;
use crate::hashing::{compute_hash, spec_text_hash};
use crate::page_builder::{page_views, GeneratedPage, PageView};

verus! {

#[derive(Debug, Clone)]
pub struct WikiIndex {
    pub version: u32,
    pub generated_at: String,
    pub source_commit: String,
    pub pages: Vec<PageIndex>,
}

#[derive(Debug, Clone)]
pub struct PageIndex {
    pub path: String,
    pub content_hash: String,
    pub symbols_referenced: Vec<String>,
    pub evidence: Vec<EvidenceRef>,
}

/// The index entry of a page: its path, the hash of its text and the symbols
/// it documents, with no evidence.
pub open spec fn page_entry_ok(e: PageIndex, p: PageView) -> bool {
    &&& e.path@ == p.path
    &&& e.content_hash@ == spec_text_hash(p.content)
    &&& string_views(e.symbols_referenced@) == p.symbols_referenced
    &&& e.evidence@.len() == 0
}

/// The index of the pages, version 1.
pub open spec fn index_ok(ix: WikiIndex, pages: Seq<PageView>, commit: Seq<char>, at: Seq<char>) -> bool {
    &&& ix.version == 1
    &&& ix.generated_at@ == at
    &&& ix.source_commit@ == commit
    &&& ix.pages@.len() == pages.len()
    &&& forall|i: int| 0 <= i < pages.len() ==> page_entry_ok(#[trigger] ix.pages@[i], pages[i])
}

fn copy_strings(v: &Vec<String>) -> (r: Vec<String>)
    ensures
        string_views(r@) == string_views(v@),
{
    let mut out: Vec<String> = Vec::new();
    let mut k: usize = 0;
    while k < v.len()
        invariant
            k <= v@.len(),
            string_views(out@) == string_views(v@).take(k as int),
        decreases v@.len() - k,
    {
        let ghost before = string_views(out@);
        let x = v[k].clone();
        assert(x@ == v@[k as int]@);
        out.push(x);
        assert(string_views(out@) =~= before.push(x@));
        assert(string_views(out@) =~= string_views(v@).take(k + 1));
        k = k + 1;
    }
    out
}

impl WikiIndex {
    /// The index of the pages, stamped with `generated_at`.
    pub fn build_at(pages: &[GeneratedPage], source_commit: &str, generated_at: String) -> (r: Self)
        ensures
            index_ok(r, page_views(pages@), source_commit@, generated_at@),
    {
        let mut entries: Vec<PageIndex> = Vec::new();
        let mut k: usize = 0;
        while k < pages.len()
            invariant
                k <= pages@.len(),
                entries@.len() == k,
                forall|i: int| 0 <= i < k ==> page_entry_ok(#[trigger] entries@[i], page_views(pages@)[i]),
            decreases pages@.len() - k,
        {
            let p = &pages[k];
            assert(page_views(pages@)[k as int] == p@);
            let e = PageIndex {
                path: p.path.clone(),
                content_hash: compute_hash(p.content.as_str()),
                symbols_referenced: copy_strings(&p.symbols_referenced),
                evidence: Vec::new(),
            };
            entries.push(e);
            k = k + 1;
        }
        WikiIndex { version: 1, generated_at, source_commit: source_commit.to_string(), pages: entries }
    }

    /// The index of the pages, stamped with the current time.
    pub fn build(pages: &[GeneratedPage], source_commit: &str) -> (r: Self)
        ensures
            index_ok(r, page_views(pages@), source_commit@, r.generated_at@),
            crate::cache::utc_stamp_shape(r.generated_at@),
    {
        WikiIndex::build_at(pages, source_commit, now_rfc3339())
    }
}

} // verus!
