//! The Baidu Pan connector: its settings, the requests it sends through the
//! Open Platform API, and the reading of the replies. The requests themselves
//! are sent by the caller.

use vstd::prelude::*;

use crate::cloud::{
    entry_views, eq_str, is_top, is_top_exec, items_exec, items_of, json_u64, json_u64_exec, member,
    member_exec, text_or, text_or_exec, trim_slashes, trim_slashes_exec, url_encode, url_encoded,
    EntryView,
};
use crate::error::WikiGenError;
use crate::json::JsonValue;
use crate::storage::{FileEntry, FileMetadata};
use crate::text::{append_str, append_vec, chars_of, decimal, decimal_u64_vec, rfind, rfind_vec, string_of, subvec};

verus! {

/// A Baidu Pan account, with the folder of the app that files are read from.
pub struct BaiduPanConnector {
    access_token: String,
    app_path: String,
}

/// The path on the drive that a path of the connector names: the app folder
/// for the top, else the path without surrounding slashes inside it.
pub open spec fn baidu_full_path(app: Seq<char>, path: Seq<char>) -> Seq<char> {
    if is_top(path) { app } else { app + "/"@ + trim_slashes(path) }
}

/// The folder holding a path: the text before its last `/`, empty if it has none.
pub open spec fn parent_of(full: Seq<char>) -> Seq<char> {
    match rfind(full, "/"@) {
        Some(k) => full.subrange(0, k),
        None => Seq::empty(),
    }
}

/// The name of a path: the text after its last `/`, the whole path if it has none.
pub open spec fn leaf_of(full: Seq<char>) -> Seq<char> {
    match rfind(full, "/"@) {
        Some(k) => full.subrange(k + 1, full.len() as int),
        None => full,
    }
}

/// The name an item of a listing carries.
pub open spec fn baidu_name(item: JsonValue) -> Seq<char> {
    text_or(member(item, "server_filename"@), Seq::empty())
}

/// A number field of an item, 0 where it is missing or not a `u64`.
pub open spec fn u64_or_zero(v: JsonValue) -> u64 {
    match json_u64(v) {
        Some(n) => n,
        None => 0,
    }
}

/// The entry of one item of a listing.
pub open spec fn baidu_entry(item: JsonValue) -> EntryView {
    (baidu_name(item), u64_or_zero(member(item, "isdir"@)) == 1, u64_or_zero(member(item, "size"@)))
}

/// The items of a listing reply.
pub open spec fn baidu_items(data: JsonValue) -> Seq<JsonValue> {
    items_of(member(data, "list"@))
}

pub open spec fn baidu_entries(data: JsonValue) -> Seq<EntryView> {
    let items = baidu_items(data);
    Seq::new(items.len(), |i: int| baidu_entry(items[i]))
}

/// The first item from index `i` on that carries the name `name`.
pub open spec fn first_named_from(items: Seq<JsonValue>, name: Seq<char>, i: int) -> Option<int>
    decreases items.len() - i,
{
    if i < 0 || i >= items.len() {
        None
    } else if baidu_name(items[i]) == name {
        Some(i)
    } else {
        first_named_from(items, name, i + 1)
    }
}

/// The first item of a listing reply that carries the name `name`.
pub open spec fn first_named(data: JsonValue, name: Seq<char>) -> Option<int> {
    first_named_from(baidu_items(data), name, 0)
}

pub proof fn lemma_first_named_from_bounds(items: Seq<JsonValue>, name: Seq<char>, i: int)
    requires
        0 <= i,
    ensures
        first_named_from(items, name, i) matches Some(k) ==> i <= k < items.len() && baidu_name(items[k]) == name,
    decreases items.len() - i,
{
    if i < items.len() && baidu_name(items[i]) != name {
        lemma_first_named_from_bounds(items, name, i + 1);
    }
}

/// A path with a `/` in it is its folder, a `/`, and its name.
pub proof fn law_parent_and_leaf(full: Seq<char>)
    requires
        rfind(full, "/"@) is Some,
    ensures
        parent_of(full) + "/"@ + leaf_of(full) == full,
{
    reveal_strlit("/");
    crate::text::lemma_rfind_before_bounds(full, "/"@, full.len() as int);
    let k = rfind(full, "/"@)->0;
    assert(full.subrange(k, k + 1) == "/"@);
    assert(parent_of(full) + "/"@ + leaf_of(full) =~= full);
}


pub const UINFO_API: &'static str = "https://pan.baidu.com/rest/2.0/xpan/nas?method=uinfo&access_token=";

pub const LIST_API: &'static str = "https://pan.baidu.com/rest/2.0/xpan/file?method=list&access_token=";

pub const FILEMETAS_API: &'static str = "https://pan.baidu.com/rest/2.0/xpan/multimedia?method=filemetas&access_token=";

impl BaiduPanConnector {
    pub closed spec fn spec_token(&self) -> Seq<char> {
        self.access_token@
    }

    pub closed spec fn spec_app(&self) -> Seq<char> {
        self.app_path@
    }

    pub fn new(access_token: String) -> (r: Self)
        ensures
            r.spec_token() == access_token@,
            r.spec_app() == "/apps/memoryos"@,
    {
        BaiduPanConnector { access_token, app_path: "/apps/memoryos".to_string() }
    }

    pub fn with_app_path(self, app_path: String) -> (r: Self)
        ensures
            r.spec_token() == self.spec_token(),
            r.spec_app() == app_path@,
    {
        BaiduPanConnector { app_path, ..self }
    }

    pub fn access_token(&self) -> (r: &str)
        ensures
            r@ == self.spec_token(),
    {
        self.access_token.as_str()
    }

    pub fn app_path(&self) -> (r: &str)
        ensures
            r@ == self.spec_app(),
    {
        self.app_path.as_str()
    }

    pub fn name(&self) -> (r: &'static str)
        ensures
            r@ == "baidu_pan"@,
    {
        "baidu_pan"
    }

    /// The path on the drive that `path` names.
    pub fn full_path(&self, path: &str) -> (r: String)
        ensures
            r@ == baidu_full_path(self.spec_app(), path@),
    {
        if is_top_exec(path) {
            self.app_path.clone()
        } else {
            let mut out = chars_of(self.app_path.as_str());
            append_str(&mut out, "/");
            append_vec(&mut out, &trim_slashes_exec(path));
            string_of(out.as_slice())
        }
    }

    /// The request that checks the account.
    pub fn connect_url(&self) -> (r: String)
        ensures
            r@ == UINFO_API@ + self.spec_token(),
    {
        let mut out = chars_of(UINFO_API);
        append_str(&mut out, self.access_token.as_str());
        string_of(out.as_slice())
    }

    /// The request that lists the folder `dir` of the drive.
    pub fn list_dir_url(&self, dir: &str) -> (r: String)
        ensures
            r@ == LIST_API@ + self.spec_token() + "&dir="@ + url_encoded(dir@),
    {
        let mut out = chars_of(LIST_API);
        append_str(&mut out, self.access_token.as_str());
        append_str(&mut out, "&dir=");
        append_str(&mut out, url_encode(dir).as_str());
        string_of(out.as_slice())
    }

    /// The request that lists the folder `path` names.
    pub fn list_url(&self, path: &str) -> (r: String)
        ensures
            r@ == LIST_API@ + self.spec_token() + "&dir="@ + url_encoded(baidu_full_path(self.spec_app(), path@)),
    {
        let full = self.full_path(path);
        self.list_dir_url(full.as_str())
    }

    /// The request that lists the folder holding the file `path` names.
    pub fn parent_list_url(&self, path: &str) -> (r: String)
        ensures
            r@ == LIST_API@ + self.spec_token() + "&dir="@ + url_encoded(
                parent_of(baidu_full_path(self.spec_app(), path@)),
            ),
    {
        let full = chars_of(self.full_path(path).as_str());
        let slash = chars_of("/");
        proof {
            reveal_strlit("/");
            assert(slash@.len() == 1);
            crate::text::lemma_rfind_before_bounds(full@, slash@, full@.len() as int);
        }
        let parent = match rfind_vec(&full, &slash) {
            Some(k) => subvec(&full, 0, k),
            None => Vec::new(),
        };
        proof {
            if rfind(full@, slash@) is None {
                assert(parent@ =~= Seq::<char>::empty());
            }
        }
        self.list_dir_url(string_of(parent.as_slice()).as_str())
    }

    /// The name under which the file `path` names is listed in its folder.
    pub fn file_name(&self, path: &str) -> (r: String)
        ensures
            r@ == leaf_of(baidu_full_path(self.spec_app(), path@)),
    {
        let full = chars_of(self.full_path(path).as_str());
        let slash = chars_of("/");
        proof {
            reveal_strlit("/");
            assert(slash@.len() == 1);
            crate::text::lemma_rfind_before_bounds(full@, slash@, full@.len() as int);
        }
        match rfind_vec(&full, &slash) {
            Some(k) => {
                assert(rfind(full@, slash@) == Some(k as int));
                let n = full.len();
                assert(k + 1 <= n);
                string_of(subvec(&full, k + 1, n).as_slice())
            },
            None => string_of(full.as_slice()),
        }
    }

    /// The entries of a listing reply.
    pub fn list_entries(&self, data: &JsonValue) -> (r: Vec<FileEntry>)
        ensures
            entry_views(r@) == baidu_entries(*data),
    {
        let items = items_exec(member_exec(data, "list"));
        let mut out: Vec<FileEntry> = Vec::new();
        let mut k: usize = 0;
        while k < items.len()
            invariant
                k <= items@.len(),
                items@ == baidu_items(*data),
                entry_views(out@) == Seq::new(k as nat, |i: int| baidu_entry(items@[i])),
            decreases items@.len() - k,
        {
            let e = baidu_entry_exec(&items[k]);
            let ghost before = entry_views(out@);
            let ghost evw = (e.path@, e.is_dir, e.size);
            out.push(e);
            assert(entry_views(out@) =~= before.push(evw));
            assert(entry_views(out@) =~= Seq::new((k + 1) as nat, |i: int| baidu_entry(items@[i])));
            k = k + 1;
        }
        out
    }

    /// Whether a listing reply holds an item named `name`.
    pub fn has_file(&self, data: &JsonValue, name: &str) -> (r: bool)
        ensures
            r == first_named(*data, name@) is Some,
    {
        find_named(data, name).is_some()
    }

    /// The metadata of the item named `name` in a listing reply.
    pub fn metadata_of(&self, data: &JsonValue, name: &str) -> (r: Result<FileMetadata, WikiGenError>)
        ensures
            match first_named(*data, name@) {
                Some(i) => r matches Ok(m) && m.size == u64_or_zero(member(baidu_items(*data)[i], "size"@))
                    && m.is_dir == (u64_or_zero(member(baidu_items(*data)[i], "isdir"@)) == 1)
                    && m.modified is None,
                None => r matches Err(WikiGenError::Storage(m)) && m@ == "File not found"@,
            },
    {
        match find_named(data, name) {
            Some(i) => {
                let items = items_exec(member_exec(data, "list"));
                let item = &items[i];
                Ok(FileMetadata {
                    size: u64_or_zero_exec(member_exec(item, "size")),
                    modified: None,
                    is_dir: u64_or_zero_exec(member_exec(item, "isdir")) == 1,
                })
            },
            None => Err(WikiGenError::Storage("File not found".to_string())),
        }
    }

    /// The file id of the item named `name` in a listing reply.
    pub fn fs_id_of(&self, data: &JsonValue, name: &str) -> (r: Result<u64, WikiGenError>)
        ensures
            match first_named(*data, name@) {
                Some(i) if json_u64(member(baidu_items(*data)[i], "fs_id"@)) is Some => r matches Ok(n)
                    && n == json_u64(member(baidu_items(*data)[i], "fs_id"@))->0,
                _ => r matches Err(WikiGenError::Storage(m)) && m@ == "File not found on Baidu Pan"@,
            },
    {
        match find_named(data, name) {
            Some(i) => {
                let items = items_exec(member_exec(data, "list"));
                match json_u64_exec(member_exec(&items[i], "fs_id")) {
                    Some(n) => Ok(n),
                    None => Err(WikiGenError::Storage("File not found on Baidu Pan".to_string())),
                }
            },
            None => Err(WikiGenError::Storage("File not found on Baidu Pan".to_string())),
        }
    }

    /// The request that asks for the download link of a file.
    pub fn dlink_url(&self, fs_id: u64) -> (r: String)
        ensures
            r@ == FILEMETAS_API@ + self.spec_token() + "&fsids=["@ + decimal(fs_id as nat) + "]&dlink=1"@,
    {
        let mut out = chars_of(FILEMETAS_API);
        append_str(&mut out, self.access_token.as_str());
        append_str(&mut out, "&fsids=[");
        append_vec(&mut out, &decimal_u64_vec(fs_id));
        append_str(&mut out, "]&dlink=1");
        string_of(out.as_slice())
    }

    /// The download link in a file-metadata reply: that of its first item.
    pub fn dlink_of(&self, data: &JsonValue) -> (r: Result<String, WikiGenError>)
        ensures
            (baidu_items(*data).len() > 0 && member(baidu_items(*data)[0], "dlink"@) is Str) ==> (r matches Ok(
                s,
            ) && s@ == text_or(member(baidu_items(*data)[0], "dlink"@), Seq::empty())),
            !(baidu_items(*data).len() > 0 && member(baidu_items(*data)[0], "dlink"@) is Str) ==> (r matches Err(
                WikiGenError::Storage(m),
            ) && m@ == "No download link"@),
    {
        let items = items_exec(member_exec(data, "list"));
        if items.len() > 0 {
            match member_exec(&items[0], "dlink") {
                Some(JsonValue::Str(s)) => {
                    return Ok(s.clone());
                },
                _ => {},
            }
        }
        Err(WikiGenError::Storage("No download link".to_string()))
    }

    /// The request that downloads through a link.
    pub fn download_url(&self, dlink: &str) -> (r: String)
        ensures
            r@ == dlink@ + "&access_token="@ + self.spec_token(),
    {
        let mut out = chars_of(dlink);
        append_str(&mut out, "&access_token=");
        append_str(&mut out, self.access_token.as_str());
        string_of(out.as_slice())
    }
}

fn u64_or_zero_exec(v: Option<&JsonValue>) -> (r: u64)
    ensures
        r == u64_or_zero(match v {
            Some(x) => *x,
            None => JsonValue::Null,
        }),
{
    match json_u64_exec(v) {
        Some(n) => n,
        None => 0,
    }
}

fn baidu_entry_exec(item: &JsonValue) -> (r: FileEntry)
    ensures
        (r.path@, r.is_dir, r.size) == baidu_entry(*item),
{
    let name = text_or_exec(member_exec(item, "server_filename"), "");
    proof {
        reveal_strlit("");
        assert(""@ =~= Seq::<char>::empty());
    }
    FileEntry {
        path: name,
        is_dir: u64_or_zero_exec(member_exec(item, "isdir")) == 1,
        size: u64_or_zero_exec(member_exec(item, "size")),
    }
}

/// The index of the first item of a listing reply named `name`.
fn find_named(data: &JsonValue, name: &str) -> (r: Option<usize>)
    ensures
        r matches Some(k) ==> first_named(*data, name@) == Some(k as int) && k < baidu_items(*data).len(),
        r is None ==> first_named(*data, name@) is None,
{
    let items = items_exec(member_exec(data, "list"));
    let mut k: usize = 0;
    proof {
        reveal_strlit("");
        assert(""@ =~= Seq::<char>::empty());
    }
    while k < items.len()
        invariant
            k <= items@.len(),
            items@ == baidu_items(*data),
            first_named(*data, name@) == first_named_from(items@, name@, k as int),
        decreases items@.len() - k,
    {
        let n = text_or_exec(member_exec(&items[k], "server_filename"), "");
        proof {
            reveal_strlit("");
            assert(""@ =~= Seq::<char>::empty());
        }
        if eq_str(n.as_str(), name) {
            return Some(k);
        }
        k = k + 1;
    }
    None
}

} // verus!
