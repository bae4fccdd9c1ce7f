//! The documentation cache: generated results keyed by a symbol hash and
//! valid only for the prompt hash they were generated from.

use vstd::prelude::*;

use crate::evidence::LlmDocResult;
use crate::text::{chars_of, eq_vec};

pub use crate::hashing::{compute_file_hash, compute_hash};

verus! {

#[derive(Debug, Clone)]
pub struct CacheStore {
    pub version: u32,
    /// Entries in insertion order; no key occurs twice.
    pub entries: Vec<(String, CacheEntry)>,
}

#[derive(Debug, Clone)]
pub struct CacheEntry {
    pub prompt_hash: String,
    pub content_hash: String,
    pub result: LlmDocResult,
    pub generated_at: String,
}

/// The shape of a UTC time stamp in RFC 3339: at least
/// `YYYY-MM-DDTHH:MM:SS+00:00`, ending with the offset `+00:00`.
pub open spec fn utc_stamp_shape(t: Seq<char>) -> bool {
    crate::text::ends_with(t, "+00:00"@) && t.len() >= 25
}

/// The current time as RFC 3339 text (`chrono::Utc::now().to_rfc3339()`).
/// Which time it shows depends on the clock and is not stated; its shape is:
/// at least `YYYY-MM-DDTHH:MM:SS` (19 characters), then the UTC offset
/// written as `+00:00`.
#[verifier::external_body]
pub(crate) fn now_rfc3339() -> (r: String)
    ensures
        utc_stamp_shape(r@),
{
    chrono::Utc::now().to_rfc3339()
}

/// Lookup result of a cache map: the stored result when the key is present and
/// its prompt hash matches.
pub open spec fn spec_lookup(m: Map<Seq<char>, CacheEntry>, key: Seq<char>, prompt_hash: Seq<char>) -> Option<LlmDocResult> {
    if m.contains_key(key) && m[key].prompt_hash@ == prompt_hash {
        Some(m[key].result)
    } else {
        None
    }
}

/// The key-to-entry map of an entry list whose keys are distinct.
pub open spec fn entries_map(e: Seq<(String, CacheEntry)>) -> Map<Seq<char>, CacheEntry>
    decreases e.len(),
{
    if e.len() == 0 {
        Map::empty()
    } else {
        entries_map(e.drop_last()).insert(e.last().0@, e.last().1)
    }
}

pub open spec fn keys_distinct(e: Seq<(String, CacheEntry)>) -> bool {
    forall|i: int, j: int| 0 <= i < j < e.len() ==> #[trigger] e[i].0@ != #[trigger] e[j].0@
}

proof fn lemma_entries_map_index(e: Seq<(String, CacheEntry)>, i: int)
    requires
        keys_distinct(e),
        0 <= i < e.len(),
    ensures
        entries_map(e).contains_key(e[i].0@),
        entries_map(e)[e[i].0@] == e[i].1,
    decreases e.len(),
{
    if i < e.len() - 1 {
        assert(e.drop_last()[i] == e[i]);
        lemma_entries_map_index(e.drop_last(), i);
    }
}

proof fn lemma_entries_map_absent(e: Seq<(String, CacheEntry)>, k: Seq<char>)
    requires
        forall|i: int| 0 <= i < e.len() ==> #[trigger] e[i].0@ != k,
    ensures
        !entries_map(e).contains_key(k),
    decreases e.len(),
{
    if e.len() > 0 {
        assert forall|i: int| 0 <= i < e.drop_last().len() implies #[trigger] e.drop_last()[i].0@ != k by {
            assert(e.drop_last()[i] == e[i]);
        }
        lemma_entries_map_absent(e.drop_last(), k);
    }
}

proof fn lemma_entries_map_update(e: Seq<(String, CacheEntry)>, i: int, v: CacheEntry)
    requires
        keys_distinct(e),
        0 <= i < e.len(),
    ensures
        entries_map(e.update(i, (e[i].0, v))) == entries_map(e).insert(e[i].0@, v),
    decreases e.len(),
{
    let e2 = e.update(i, (e[i].0, v));
    if i == e.len() - 1 {
        assert(e2.drop_last() =~= e.drop_last());
        assert forall|j: int| 0 <= j < e.drop_last().len() implies #[trigger] e.drop_last()[j].0@ != e[i].0@ by {
            assert(e.drop_last()[j] == e[j]);
        }
        lemma_entries_map_absent(e.drop_last(), e[i].0@);
        assert(entries_map(e2) =~= entries_map(e).insert(e[i].0@, v));
    } else {
        assert(e2.drop_last() =~= e.drop_last().update(i, (e[i].0, v)));
        assert(e.drop_last()[i] == e[i]);
        lemma_entries_map_update(e.drop_last(), i, v);
        assert(e.last().0@ != e[i].0@);
        assert(entries_map(e2) =~= entries_map(e).insert(e[i].0@, v));
    }
}

impl CacheStore {
    pub open spec fn wf(&self) -> bool {
        keys_distinct(self.entries@)
    }

    /// The cache as a map from symbol hash to entry.
    pub open spec fn spec_map(&self) -> Map<Seq<char>, CacheEntry> {
        entries_map(self.entries@)
    }

    pub fn new() -> (r: Self)
        ensures
            r.wf(),
            r.version == 1,
            r.entries@.len() == 0,
            r.spec_map() == Map::<Seq<char>, CacheEntry>::empty(),
    {
        CacheStore { version: 1, entries: Vec::new() }
    }

    fn position(&self, key: &str) -> (r: Option<usize>)
        requires
            self.wf(),
        ensures
            match r {
                Some(i) => i < self.entries@.len() && self.entries@[i as int].0@ == key@,
                None => forall|i: int| 0 <= i < self.entries@.len() ==> #[trigger] self.entries@[i].0@ != key@,
            },
    {
        let k = chars_of(key);
        let mut i: usize = 0;
        while i < self.entries.len()
            invariant
                i <= self.entries@.len(),
                k@ == key@,
                forall|j: int| 0 <= j < i ==> #[trigger] self.entries@[j].0@ != key@,
            decreases self.entries.len() - i,
        {
            let ek = chars_of(self.entries[i].0.as_str());
            if eq_vec(&ek, &k) {
                return Some(i);
            }
            i = i + 1;
        }
        None
    }

    /// The cached result for `symbol_id_hash`, if it was generated from `prompt_hash`.
    pub fn lookup(&self, symbol_id_hash: &str, prompt_hash: &str) -> (r: Option<&LlmDocResult>)
        requires
            self.wf(),
        ensures
            match spec_lookup(self.spec_map(), symbol_id_hash@, prompt_hash@) {
                Some(res) => r matches Some(x) && *x == res,
                None => r is None,
            },
    {
        match self.position(symbol_id_hash) {
            Some(i) => {
                proof { lemma_entries_map_index(self.entries@, i as int); }
                let ph = chars_of(self.entries[i].1.prompt_hash.as_str());
                let want = chars_of(prompt_hash);
                if eq_vec(&ph, &want) {
                    Some(&self.entries[i].1.result)
                } else {
                    None
                }
            },
            None => {
                proof { lemma_entries_map_absent(self.entries@, symbol_id_hash@); }
                None
            },
        }
    }

    /// Stores an entry generated at the given time, replacing any entry under the same key.
    pub fn insert_at(
        &mut self,
        symbol_id_hash: String,
        prompt_hash: String,
        content_hash: String,
        result: LlmDocResult,
        generated_at: String,
    )
        requires
            old(self).wf(),
        ensures
            final(self).wf(),
            final(self).version == old(self).version,
            final(self).spec_map() == old(self).spec_map().insert(
                symbol_id_hash@,
                CacheEntry { prompt_hash, content_hash, result, generated_at },
            ),
    {
        let entry = CacheEntry { prompt_hash, content_hash, result, generated_at };
        match self.position(symbol_id_hash.as_str()) {
            Some(i) => {
                let ghost old_e = self.entries@;
                proof { lemma_entries_map_update(old_e, i as int, entry); }
                let key = self.entries[i].0.clone();
                self.entries.set(i, (key, entry));
                assert(self.entries@ =~= old_e.update(i as int, (old_e[i as int].0, entry)));
            },
            None => {
                let ghost old_e = self.entries@;
                self.entries.push((symbol_id_hash, entry));
                assert(self.entries@.drop_last() =~= old_e);
                assert(keys_distinct(self.entries@)) by {
                    assert forall|i: int, j: int| 0 <= i < j < self.entries@.len() implies
                        #[trigger] self.entries@[i].0@ != #[trigger] self.entries@[j].0@ by {
                        if j == self.entries@.len() - 1 {
                            assert(self.entries@[i] == old_e[i]);
                        } else {
                            assert(self.entries@[i] == old_e[i]);
                            assert(self.entries@[j] == old_e[j]);
                        }
                    }
                }
            },
        }
    }

    /// Stores an entry stamped with the current time, replacing any entry under the same key.
    pub fn insert(
        &mut self,
        symbol_id_hash: String,
        prompt_hash: String,
        content_hash: String,
        result: LlmDocResult,
    )
        requires
            old(self).wf(),
        ensures
            final(self).wf(),
            final(self).version == old(self).version,
            final(self).spec_map() == old(self).spec_map().insert(
                symbol_id_hash@,
                final(self).spec_map()[symbol_id_hash@],
            ),
            final(self).spec_map()[symbol_id_hash@].prompt_hash == prompt_hash,
            final(self).spec_map()[symbol_id_hash@].content_hash == content_hash,
            final(self).spec_map()[symbol_id_hash@].result == result,
            utc_stamp_shape(final(self).spec_map()[symbol_id_hash@].generated_at@),
    {
        let now = now_rfc3339();
        self.insert_at(symbol_id_hash, prompt_hash, content_hash, result, now);
    }
}

/// A lookup right after an insert finds what was inserted, under the prompt hash it was inserted with.
pub proof fn law_lookup_after_insert(m: Map<Seq<char>, CacheEntry>, key: Seq<char>, e: CacheEntry)
    ensures
        spec_lookup(m.insert(key, e), key, e.prompt_hash@) == Some(e.result),
{
}

/// A lookup with any other prompt hash right after an insert finds nothing.
pub proof fn law_lookup_stale_prompt(m: Map<Seq<char>, CacheEntry>, key: Seq<char>, e: CacheEntry, ph: Seq<char>)
    requires
        ph != e.prompt_hash@,
    ensures
        spec_lookup(m.insert(key, e), key, ph) is None,
{
}

/// An insert leaves the lookups of every other key as they were.
pub proof fn law_insert_keeps_other_keys(m: Map<Seq<char>, CacheEntry>, key: Seq<char>, e: CacheEntry, other: Seq<char>, ph: Seq<char>)
    requires
        other != key,
    ensures
        spec_lookup(m.insert(key, e), other, ph) == spec_lookup(m, other, ph),
{
}

} // verus!
