//! The WebDAV connector: its settings, the requests it sends, and the reading
//! of a `PROPFIND` reply. The requests themselves are sent by the caller.

use vstd::prelude::*;

use crate::cloud::{entry_views, parse_u64, parse_u64_spec, EntryView};
use crate::storage::{FileEntry, FileMetadata};
use crate::text::{
    append_str, append_vec, chars_of, contains, contains_vec, ends_with, ends_with_vec, eq_vec, find, find_vec,
    lines, lines_vec, split_first, split_first_vec, string_of, subvec, trim_end_matches, trim_end_matches_vec,
    trim_start_matches, trim_start_matches_vec, views,
};

verus! {

/// A WebDAV server, with the credentials sent to it if any.
pub struct WebDavConnector {
    base_url: String,
    username: Option<String>,
    password: Option<String>,
}

pub const HREF_OPEN: &'static str = "<d:href>";

pub const HREF_CLOSE: &'static str = "</d:href>";

/// The link a reply line carries: the text after the first `<d:href>` up to
/// the next `<d:href>` or `</d:href>` (`split(..).nth(1)`, then `split(..).next()`).
pub open spec fn href_in(line: Seq<char>) -> Seq<char> {
    match find(line, HREF_OPEN@) {
        Some(k) => split_first(
            split_first(line.subrange(k + HREF_OPEN@.len(), line.len() as int), HREF_OPEN@),
            HREF_CLOSE@,
        ),
        None => Seq::empty(),
    }
}

/// What one line of a `PROPFIND` reply adds to a listing: the linked path
/// without leading slashes, where the line carries a link whose path is not
/// empty and ends with `/`.
pub open spec fn webdav_line_entry(line: Seq<char>) -> Seq<EntryView> {
    if contains(line, HREF_OPEN@) {
        let href = href_in(line);
        let path = trim_start_matches(href, "/"@);
        if path.len() > 0 && path != trim_end_matches(path, "/"@) {
            seq![(path, ends_with(href, "/"@), 0u64)]
        } else {
            Seq::empty()
        }
    } else {
        Seq::empty()
    }
}

pub open spec fn webdav_entries_of(ls: Seq<Seq<char>>) -> Seq<EntryView>
    decreases ls.len(),
{
    if ls.len() == 0 {
        Seq::empty()
    } else {
        webdav_entries_of(ls.drop_last()) + webdav_line_entry(ls.last())
    }
}

/// The listing a `PROPFIND` reply gives, line by line.
pub open spec fn webdav_entries(body: Seq<char>) -> Seq<EntryView> {
    webdav_entries_of(lines(body))
}

/// The size a `Content-Length` header gives: its number, else 0.
pub open spec fn content_length_size(v: Option<Seq<char>>) -> u64 {
    match v {
        Some(t) => match parse_u64_spec(t) {
            Some(n) => n,
            None => 0,
        },
        None => 0,
    }
}

/// An entry of a listing that names a directory: a path that is not empty,
/// ends with `/`, and is marked a directory.
pub open spec fn dir_entry(e: EntryView) -> bool {
    e.1 && e.0.len() > 0 && ends_with(e.0, "/"@)
}

proof fn lemma_line_entry_is_dir(line: Seq<char>)
    ensures
        forall|i: int| 0 <= i < webdav_line_entry(line).len() ==> dir_entry(#[trigger] webdav_line_entry(line)[i]),
{
    reveal_strlit("/");
    if contains(line, HREF_OPEN@) {
        let href = href_in(line);
        let path = trim_start_matches(href, "/"@);
        if path.len() > 0 && path != trim_end_matches(path, "/"@) {
            crate::text::lemma_strip_prefixes_bounds(href, "/"@, 0);
            let a = crate::text::strip_prefixes_from(href, "/"@, 0);
            let n = path.len() as int;
            if !crate::text::matches_at(path, "/"@, n - 1) {
                assert(trim_end_matches(path, "/"@) =~= path);
            }
            assert(path.subrange(n - 1, n) == "/"@);
            assert(href.subrange(href.len() - 1, href.len() as int) =~= path.subrange(n - 1, n));
            assert(ends_with(path, "/"@));
            assert(ends_with(href, "/"@));
        }
    }
}

proof fn lemma_entries_are_dirs(ls: Seq<Seq<char>>)
    ensures
        forall|i: int| 0 <= i < webdav_entries_of(ls).len() ==> dir_entry(#[trigger] webdav_entries_of(ls)[i]),
    decreases ls.len(),
{
    if ls.len() > 0 {
        lemma_entries_are_dirs(ls.drop_last());
        lemma_line_entry_is_dir(ls.last());
        let a = webdav_entries_of(ls.drop_last());
        let b = webdav_line_entry(ls.last());
        assert forall|i: int| 0 <= i < webdav_entries_of(ls).len() implies dir_entry(
            #[trigger] webdav_entries_of(ls)[i],
        ) by {
            if i < a.len() {
                assert(webdav_entries_of(ls)[i] == a[i]);
            } else {
                assert(webdav_entries_of(ls)[i] == b[i - a.len()]);
            }
        }
    }
}

/// Every entry a `PROPFIND` reply gives is a directory: its path is not
/// empty and ends with `/`, and it is marked a directory.
pub proof fn law_webdav_lists_directories(body: Seq<char>)
    ensures
        forall|i: int| 0 <= i < webdav_entries(body).len() ==> dir_entry(#[trigger] webdav_entries(body)[i]),
{
    lemma_entries_are_dirs(lines(body));
}

impl WebDavConnector {
    pub closed spec fn spec_base(&self) -> Seq<char> {
        self.base_url@
    }

    /// The user name and password sent with each request, where both are set.
    pub closed spec fn spec_credentials(&self) -> Option<(Seq<char>, Seq<char>)> {
        match (&self.username, &self.password) {
            (Some(u), Some(p)) => Some((u@, p@)),
            _ => None,
        }
    }

    pub fn new(base_url: String) -> (r: Self)
        ensures
            r.spec_base() == trim_end_matches(base_url@, "/"@),
            r.spec_credentials() is None,
    {
        let b = trim_end_matches_vec(&chars_of(base_url.as_str()), &chars_of("/"));
        WebDavConnector { base_url: string_of(b.as_slice()), username: None, password: None }
    }

    pub fn with_auth(self, username: String, password: String) -> (r: Self)
        ensures
            r.spec_base() == self.spec_base(),
            r.spec_credentials() == Some((username@, password@)),
    {
        WebDavConnector { username: Some(username), password: Some(password), ..self }
    }

    pub fn base_url(&self) -> (r: &str)
        ensures
            r@ == self.spec_base(),
    {
        self.base_url.as_str()
    }

    /// The user name and password to send, where both are set.
    pub fn credentials(&self) -> (r: Option<(String, String)>)
        ensures
            match self.spec_credentials() {
                Some((u, p)) => r matches Some((a, b)) && a@ == u && b@ == p,
                None => r is None,
            },
    {
        match (&self.username, &self.password) {
            (Some(u), Some(p)) => Some((u.clone(), p.clone())),
            _ => None,
        }
    }

    pub fn name(&self) -> (r: &'static str)
        ensures
            r@ == "webdav"@,
    {
        "webdav"
    }

    /// The address of a path on the server.
    pub fn build_url(&self, path: &str) -> (r: String)
        ensures
            r@ == self.spec_base() + "/"@ + trim_start_matches(path@, "/"@),
    {
        let mut out = chars_of(self.base_url.as_str());
        append_str(&mut out, "/");
        append_vec(&mut out, &trim_start_matches_vec(&chars_of(path), &chars_of("/")));
        string_of(out.as_slice())
    }

    /// The entries of a `PROPFIND` reply.
    pub fn list_entries(&self, body: &str) -> (r: Vec<FileEntry>)
        ensures
            entry_views(r@) == webdav_entries(body@),
    {
        let ls = lines_vec(&chars_of(body));
        let open = chars_of(HREF_OPEN);
        let close = chars_of(HREF_CLOSE);
        let slash = chars_of("/");
        let mut out: Vec<FileEntry> = Vec::new();
        let mut k: usize = 0;
        proof {
            assert(views(ls@).take(0) =~= Seq::<Seq<char>>::empty());
        }
        while k < ls.len()
            invariant
                k <= ls@.len(),
                views(ls@) == lines(body@),
                open@ == HREF_OPEN@,
                close@ == HREF_CLOSE@,
                slash@ == "/"@,
                entry_views(out@) == webdav_entries_of(views(ls@).take(k as int)),
            decreases ls@.len() - k,
        {
            let line = &ls[k];
            let ghost before = entry_views(out@);
            proof {
                assert(views(ls@).take(k + 1).drop_last() =~= views(ls@).take(k as int));
                assert(views(ls@)[k as int] == line@);
            }
            if contains_vec(line, &open) {
                let href = href_in_exec(line, &open, &close);
                let path = trim_start_matches_vec(&href, &slash);
                let t = trim_end_matches_vec(&path, &slash);
                if path.len() > 0 && !eq_vec(&path, &t) {
                    let e = FileEntry { path: string_of(path.as_slice()), is_dir: ends_with_vec(&href, &slash), size: 0 };
                    let ghost evw = (e.path@, e.is_dir, e.size);
                    out.push(e);
                    assert(entry_views(out@) =~= before.push(evw));
                    assert(entry_views(out@) =~= before + webdav_line_entry(line@));
                } else {
                    assert(webdav_line_entry(line@) =~= Seq::<EntryView>::empty());
                    assert(before + webdav_line_entry(line@) =~= before);
                }
            } else {
                assert(webdav_line_entry(line@) =~= Seq::<EntryView>::empty());
                assert(before + webdav_line_entry(line@) =~= before);
            }
            k = k + 1;
        }
        proof {
            assert(views(ls@).take(k as int) =~= views(ls@));
        }
        out
    }

    /// The size a `Content-Length` header gives.
    pub fn size_of(&self, content_length: Option<&str>) -> (r: u64)
        ensures
            r == content_length_size(match content_length {
                Some(t) => Some(t@),
                None => None,
            }),
    {
        match content_length {
            Some(t) => match parse_u64(&chars_of(t)) {
                Some(n) => n,
                None => 0,
            },
            None => 0,
        }
    }

    /// The metadata a `HEAD` reply gives: the size of its `Content-Length`
    /// header; a file.
    pub fn metadata_of(&self, content_length: Option<&str>) -> (r: FileMetadata)
        ensures
            r.size == content_length_size(match content_length {
                Some(t) => Some(t@),
                None => None,
            }),
            !r.is_dir,
            r.modified is None,
    {
        FileMetadata { size: self.size_of(content_length), modified: None, is_dir: false }
    }
}

fn href_in_exec(line: &Vec<char>, open: &Vec<char>, close: &Vec<char>) -> (r: Vec<char>)
    requires
        open@ == HREF_OPEN@,
        close@ == HREF_CLOSE@,
    ensures
        r@ == href_in(line@),
{
    match find_vec(line, open) {
        Some(k) => {
            proof {
                crate::text::lemma_find_from_bounds(line@, open@, 0);
            }
            let n = line.len();
            assert(k + open@.len() <= n);
            let rest = subvec(line, k + open.len(), n);
            let piece = split_first_vec(&rest, open);
            split_first_vec(&piece, close)
        },
        None => Vec::new(),
    }
}

} // verus!
