//! S3-compatible object stores (S3 itself, Google Cloud Storage through its
//! interoperability endpoint, Tencent COS): their settings, the keys they
//! read, and the reading of a listing. The client calls are made by the caller.

use vstd::prelude::*;

use crate::cloud::{entry_views, EntryView};
use crate::storage::{FileEntry, FileMetadata};
use crate::text::{append_str, chars_of, ends_with, ends_with_vec, starts_with, starts_with_vec, string_of, subvec};

verus! {

/// A bucket of an S3-compatible store, with the key prefix files are read under.
pub struct S3Connector {
    bucket: String,
    prefix: String,
    region: String,
    endpoint: Option<String>,
    access_key: String,
    secret_key: String,
}

/// `str::strip_prefix(p).unwrap_or(s)`.
pub open spec fn strip_or_keep(s: Seq<char>, p: Seq<char>) -> Seq<char> {
    if starts_with(s, p) { s.subrange(p.len() as int, s.len() as int) } else { s }
}

/// The entry of one listed object, given its key and size, under `prefix`:
/// none for an object without a key.
pub open spec fn s3_entry(prefix: Seq<char>, key: Option<Seq<char>>, size: Option<i64>) -> Seq<EntryView> {
    match key {
        Some(k) => seq![(
            strip_or_keep(k, prefix),
            ends_with(k, "/"@),
            match size {
                Some(n) => n as u64,
                None => 0u64,
            },
        )],
        None => Seq::empty(),
    }
}

pub open spec fn s3_entries_of(prefix: Seq<char>, objects: Seq<(Option<String>, Option<i64>)>) -> Seq<EntryView>
    decreases objects.len(),
{
    if objects.len() == 0 {
        Seq::empty()
    } else {
        let o = objects.last();
        s3_entries_of(prefix, objects.drop_last()) + s3_entry(
            prefix,
            match o.0 {
                Some(k) => Some(k@),
                None => None,
            },
            o.1,
        )
    }
}

impl S3Connector {
    pub closed spec fn spec_bucket(&self) -> Seq<char> {
        self.bucket@
    }

    pub closed spec fn spec_prefix(&self) -> Seq<char> {
        self.prefix@
    }

    pub closed spec fn spec_region(&self) -> Seq<char> {
        self.region@
    }

    pub closed spec fn spec_endpoint(&self) -> Option<Seq<char>> {
        match &self.endpoint {
            Some(e) => Some(e@),
            None => None,
        }
    }

    pub closed spec fn spec_access_key(&self) -> Seq<char> {
        self.access_key@
    }

    pub closed spec fn spec_secret_key(&self) -> Seq<char> {
        self.secret_key@
    }

    /// The key of a path: the path under the prefix, if there is one.
    pub open spec fn spec_key(&self, path: Seq<char>) -> Seq<char> {
        if self.spec_prefix().len() == 0 { path } else { self.spec_prefix() + "/"@ + path }
    }

    pub fn new(bucket: String, region: String, access_key: String, secret_key: String) -> (r: Self)
        ensures
            r.spec_bucket() == bucket@,
            r.spec_region() == region@,
            r.spec_access_key() == access_key@,
            r.spec_secret_key() == secret_key@,
            r.spec_prefix().len() == 0,
            r.spec_endpoint() is None,
    {
        S3Connector { bucket, prefix: String::new(), region, endpoint: None, access_key, secret_key }
    }

    pub fn with_prefix(self, prefix: String) -> (r: Self)
        ensures
            r.spec_bucket() == self.spec_bucket(),
            r.spec_region() == self.spec_region(),
            r.spec_access_key() == self.spec_access_key(),
            r.spec_secret_key() == self.spec_secret_key(),
            r.spec_endpoint() == self.spec_endpoint(),
            r.spec_prefix() == prefix@,
    {
        S3Connector { prefix, ..self }
    }

    pub fn with_endpoint(self, endpoint: String) -> (r: Self)
        ensures
            r.spec_bucket() == self.spec_bucket(),
            r.spec_region() == self.spec_region(),
            r.spec_access_key() == self.spec_access_key(),
            r.spec_secret_key() == self.spec_secret_key(),
            r.spec_prefix() == self.spec_prefix(),
            r.spec_endpoint() == Some(endpoint@),
    {
        S3Connector { endpoint: Some(endpoint), ..self }
    }

    pub fn bucket(&self) -> (r: &str)
        ensures
            r@ == self.spec_bucket(),
    {
        self.bucket.as_str()
    }

    pub fn region(&self) -> (r: &str)
        ensures
            r@ == self.spec_region(),
    {
        self.region.as_str()
    }

    pub fn prefix(&self) -> (r: &str)
        ensures
            r@ == self.spec_prefix(),
    {
        self.prefix.as_str()
    }

    pub fn endpoint(&self) -> (r: Option<&str>)
        ensures
            match self.spec_endpoint() {
                Some(e) => r matches Some(x) && x@ == e,
                None => r is None,
            },
    {
        match &self.endpoint {
            Some(e) => Some(e.as_str()),
            None => None,
        }
    }

    pub fn access_key(&self) -> (r: &str)
        ensures
            r@ == self.spec_access_key(),
    {
        self.access_key.as_str()
    }

    pub fn secret_key(&self) -> (r: &str)
        ensures
            r@ == self.spec_secret_key(),
    {
        self.secret_key.as_str()
    }

    pub fn name(&self) -> (r: &'static str)
        ensures
            r@ == "s3"@,
    {
        "s3"
    }

    /// The key a path is read under (also the prefix a listing asks for).
    pub fn key(&self, path: &str) -> (r: String)
        ensures
            r@ == self.spec_key(path@),
    {
        if chars_of(self.prefix.as_str()).len() == 0 {
            path.to_string()
        } else {
            let mut out = chars_of(self.prefix.as_str());
            append_str(&mut out, "/");
            append_str(&mut out, path);
            string_of(out.as_slice())
        }
    }

    /// The entries of a listing, given each object's key and size: the key
    /// without the connector's prefix, a directory where the key ends with
    /// `/`, the size as an unsigned number (0 where unknown).
    pub fn list_entries(&self, objects: &Vec<(Option<String>, Option<i64>)>) -> (r: Vec<FileEntry>)
        ensures
            entry_views(r@) == s3_entries_of(self.spec_prefix(), objects@),
    {
        let prefix = chars_of(self.prefix.as_str());
        let slash = chars_of("/");
        let mut out: Vec<FileEntry> = Vec::new();
        let mut k: usize = 0;
        proof {
            reveal_strlit("/");
            assert(objects@.take(0) =~= Seq::<(Option<String>, Option<i64>)>::empty());
        }
        while k < objects.len()
            invariant
                k <= objects@.len(),
                prefix@ == self.spec_prefix(),
                slash@ == "/"@,
                entry_views(out@) == s3_entries_of(self.spec_prefix(), objects@.take(k as int)),
            decreases objects@.len() - k,
        {
            let ghost before = entry_views(out@);
            let o = &objects[k];
            proof {
                assert(objects@.take(k + 1).drop_last() =~= objects@.take(k as int));
                assert(objects@.take(k + 1).last() == objects@[k as int]);
            }
            match &o.0 {
                Some(key) => {
                    let kc = chars_of(key.as_str());
                    let path = if starts_with_vec(&kc, &prefix) {
                        subvec(&kc, prefix.len(), kc.len())
                    } else {
                        kc.clone()
                    };
                    let size: u64 = match o.1 {
                        Some(n) => n as u64,
                        None => 0,
                    };
                    let e = FileEntry { path: string_of(path.as_slice()), is_dir: ends_with_vec(&kc, &slash), size };
                    let ghost evw = (e.path@, e.is_dir, e.size);
                    out.push(e);
                    assert(entry_views(out@) =~= before.push(evw));
                },
                None => {
                    assert(before + Seq::<EntryView>::empty() =~= before);
                },
            }
            k = k + 1;
        }
        proof {
            assert(objects@.take(k as int) =~= objects@);
        }
        out
    }

    /// The metadata of an object, given the length the store reports and its
    /// modification time: a file, of that length as an unsigned number (0
    /// where unknown).
    pub fn metadata_of(&self, content_length: Option<i64>, modified: Option<std::time::SystemTime>) -> (r: FileMetadata)
        ensures
            r.size == (match content_length {
                Some(n) => n as u64,
                None => 0u64,
            }),
            r.modified == modified,
            !r.is_dir,
    {
        let size: u64 = match content_length {
            Some(n) => n as u64,
            None => 0,
        };
        FileMetadata { size, modified, is_dir: false }
    }
}

/// A Google Cloud Storage bucket, read through its S3-compatible endpoint.
pub struct GcsConnector {
    inner: S3Connector,
}

impl GcsConnector {
    pub closed spec fn spec_inner(&self) -> S3Connector {
        self.inner
    }

    pub fn new(bucket: String, access_key: String, secret_key: String) -> (r: Self)
        ensures
            r.spec_inner().spec_bucket() == bucket@,
            r.spec_inner().spec_region() == "auto"@,
            r.spec_inner().spec_access_key() == access_key@,
            r.spec_inner().spec_secret_key() == secret_key@,
            r.spec_inner().spec_prefix().len() == 0,
            r.spec_inner().spec_endpoint() == Some("https://storage.googleapis.com"@),
    {
        let inner = S3Connector::new(bucket, "auto".to_string(), access_key, secret_key).with_endpoint(
            "https://storage.googleapis.com".to_string(),
        );
        GcsConnector { inner }
    }

    pub fn with_prefix(self, prefix: String) -> (r: Self)
        ensures
            r.spec_inner().spec_bucket() == self.spec_inner().spec_bucket(),
            r.spec_inner().spec_region() == self.spec_inner().spec_region(),
            r.spec_inner().spec_access_key() == self.spec_inner().spec_access_key(),
            r.spec_inner().spec_secret_key() == self.spec_inner().spec_secret_key(),
            r.spec_inner().spec_endpoint() == self.spec_inner().spec_endpoint(),
            r.spec_inner().spec_prefix() == prefix@,
    {
        GcsConnector { inner: self.inner.with_prefix(prefix) }
    }

    /// The S3 connector that does the work.
    pub fn inner(&self) -> (r: &S3Connector)
        ensures
            *r == self.spec_inner(),
    {
        &self.inner
    }

    pub fn name(&self) -> (r: &'static str)
        ensures
            r@ == "gcs"@,
    {
        "gcs"
    }
}

/// A Tencent Cloud COS bucket, read through its S3-compatible endpoint.
pub struct CosConnector {
    inner: S3Connector,
}

impl CosConnector {
    pub closed spec fn spec_inner(&self) -> S3Connector {
        self.inner
    }

    pub fn new(region: String, bucket: String, secret_id: String, secret_key: String) -> (r: Self)
        ensures
            r.spec_inner().spec_bucket() == bucket@,
            r.spec_inner().spec_region() == region@,
            r.spec_inner().spec_access_key() == secret_id@,
            r.spec_inner().spec_secret_key() == secret_key@,
            r.spec_inner().spec_prefix().len() == 0,
            r.spec_inner().spec_endpoint() == Some("https://"@ + bucket@ + ".cos."@ + region@ + ".myqcloud.com"@),
    {
        let mut e = chars_of("https://");
        append_str(&mut e, bucket.as_str());
        append_str(&mut e, ".cos.");
        append_str(&mut e, region.as_str());
        append_str(&mut e, ".myqcloud.com");
        let inner = S3Connector::new(bucket, region, secret_id, secret_key).with_endpoint(string_of(e.as_slice()));
        CosConnector { inner }
    }

    pub fn with_prefix(self, prefix: String) -> (r: Self)
        ensures
            r.spec_inner().spec_bucket() == self.spec_inner().spec_bucket(),
            r.spec_inner().spec_region() == self.spec_inner().spec_region(),
            r.spec_inner().spec_access_key() == self.spec_inner().spec_access_key(),
            r.spec_inner().spec_secret_key() == self.spec_inner().spec_secret_key(),
            r.spec_inner().spec_endpoint() == self.spec_inner().spec_endpoint(),
            r.spec_inner().spec_prefix() == prefix@,
    {
        CosConnector { inner: self.inner.with_prefix(prefix) }
    }

    /// The S3 connector that does the work.
    pub fn inner(&self) -> (r: &S3Connector)
        ensures
            *r == self.spec_inner(),
    {
        &self.inner
    }

    pub fn name(&self) -> (r: &'static str)
        ensures
            r@ == "cos"@,
    {
        "cos"
    }
}

} // verus!
