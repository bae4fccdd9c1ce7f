//! Storage connectors: where a repository's files come from. The connectors
//! hold their settings here, with the checks that decide what a request may
//! touch; reading and listing the files is done by the caller.

use vstd::prelude::*;

use crate::error::WikiGenError;
use crate::text::{chars_of, contains, contains_vec, eq_vec, string_of, views};

verus! {

#[verifier::external_type_specification]
#[verifier::external_body]
pub struct ExSystemTime(std::time::SystemTime);

/// One entry of a directory listing.
#[derive(Debug, Clone)]
pub struct FileEntry {
    pub path: String,
    pub is_dir: bool,
    pub size: u64,
}

/// What is known of a file.
#[derive(Debug, Clone)]
pub struct FileMetadata {
    pub size: u64,
    pub modified: Option<std::time::SystemTime>,
    pub is_dir: bool,
}

// ---------------------------------------------------------------------------
// Path components
// ---------------------------------------------------------------------------

/// The pieces of the first `k` characters of `s` between `/` separators
/// (`str::split('/')`).
pub open spec fn split_upto(s: Seq<char>, k: int) -> Seq<Seq<char>>
    decreases k,
{
    if k <= 0 || k > s.len() {
        seq![Seq::empty()]
    } else {
        let prev = split_upto(s, k - 1);
        if s[k - 1] == '/' {
            prev.push(Seq::empty())
        } else {
            prev.update(prev.len() - 1, prev.last().push(s[k - 1]))
        }
    }
}

/// The pieces that name something: neither empty nor `.`.
pub open spec fn normal_parts(segs: Seq<Seq<char>>) -> Seq<Seq<char>>
    decreases segs.len(),
{
    if segs.len() == 0 {
        Seq::empty()
    } else {
        normal_parts(segs.drop_last()) + if segs.last() == Seq::<char>::empty() || segs.last() == "."@ {
            Seq::<Seq<char>>::empty()
        } else {
            seq![segs.last()]
        }
    }
}

/// The components of a path as `Path::components` yields them on Unix: `/`
/// for the root, `.` only for a leading `./`, then the named pieces.
pub open spec fn path_components(s: Seq<char>) -> Seq<Seq<char>> {
    let segs = split_upto(s, s.len() as int);
    let head = if s.len() > 0 && s[0] == '/' {
        seq!["/"@]
    } else if segs[0] == "."@ {
        seq!["."@]
    } else {
        Seq::empty()
    };
    head + normal_parts(segs)
}

/// `Path::starts_with`: the components of `base` begin those of `path`.
pub open spec fn path_starts_with(path: Seq<char>, base: Seq<char>) -> bool {
    let p = path_components(path);
    let b = path_components(base);
    b.len() <= p.len() && p.take(b.len() as int) == b
}

fn split_slash(s: &Vec<char>) -> (r: Vec<Vec<char>>)
    ensures
        views(r@) == split_upto(s@, s@.len() as int),
        r@.len() >= 1,
{
    let mut pieces: Vec<Vec<char>> = Vec::new();
    let mut cur: Vec<char> = Vec::new();
    let mut k: usize = 0;
    while k < s.len()
        invariant
            k <= s@.len(),
            views(pieces@).push(cur@) == split_upto(s@, k as int),
        decreases s@.len() - k,
    {
        let ghost prev = split_upto(s@, k as int);
        let c = s[k];
        if c == '/' {
            let done = cur;
            let ghost dv = done@;
            pieces.push(done);
            cur = Vec::new();
            assert(views(pieces@) =~= views(pieces@.drop_last()).push(dv));
            assert(views(pieces@).push(cur@) =~= prev.push(Seq::empty()));
        } else {
            cur.push(c);
            assert(views(pieces@).push(cur@) =~= prev.update(prev.len() - 1, prev.last().push(c)));
        }
        k = k + 1;
    }
    let ghost last = cur@;
    pieces.push(cur);
    assert(views(pieces@) =~= views(pieces@.drop_last()).push(last));
    pieces
}

fn components_vec(s: &Vec<char>) -> (r: Vec<Vec<char>>)
    ensures
        views(r@) == path_components(s@),
{
    let segs = split_slash(s);
    let mut out: Vec<Vec<char>> = Vec::new();
    let dot = chars_of(".");
    proof { reveal_strlit("."); reveal_strlit("/"); }
    let ghost sv = views(segs@);
    assert(sv[0] == segs@[0]@);
    if s.len() > 0 && s[0] == '/' {
        out.push(chars_of("/"));
    } else if eq_vec(&segs[0], &dot) {
        out.push(chars_of("."));
    }
    let ghost head = views(out@);
    let mut k: usize = 0;
    while k < segs.len()
        invariant
            k <= segs@.len(),
            sv == views(segs@),
            dot@ == "."@,
            views(out@) == head + normal_parts(sv.take(k as int)),
        decreases segs@.len() - k,
    {
        assert(sv.take(k + 1).drop_last() =~= sv.take(k as int));
        assert(sv[k as int] == segs@[k as int]@);
        let ghost before = views(out@);
        if segs[k].len() > 0 && !eq_vec(&segs[k], &dot) {
            let x = crate::text::copy_vec(&segs[k]);
            out.push(x);
            assert(views(out@) =~= before.push(x@));
        } else {
            assert(segs@[k as int]@ == Seq::<char>::empty() || segs@[k as int]@ == "."@);
        }
        assert(views(out@) =~= head + normal_parts(sv.take(k + 1)));
        k = k + 1;
    }
    assert(sv.take(k as int) =~= sv);
    out
}

/// `Path::starts_with` on Unix paths.
pub fn path_starts_with_exec(path: &str, base: &str) -> (r: bool)
    ensures
        r == path_starts_with(path@, base@),
{
    let pc = chars_of(path);
    let bc = chars_of(base);
    let p = components_vec(&pc);
    let b = components_vec(&bc);
    let ghost pv = views(p@);
    let ghost bv = views(b@);
    if b.len() > p.len() {
        return false;
    }
    let mut k: usize = 0;
    while k < b.len()
        invariant
            k <= b@.len() <= p@.len(),
            pv == views(p@),
            bv == views(b@),
            pv == path_components(path@),
            bv == path_components(base@),
            forall|j: int| 0 <= j < k ==> #[trigger] pv[j] == bv[j],
        decreases b@.len() - k,
    {
        assert(pv[k as int] == p@[k as int]@ && bv[k as int] == b@[k as int]@);
        if !eq_vec(&p[k], &b[k]) {
            assert(pv.take(bv.len() as int)[k as int] != bv[k as int]);
            assert(pv.take(bv.len() as int) != bv);
            return false;
        }
        k = k + 1;
    }
    assert(pv.take(bv.len() as int) =~= bv);
    true
}

/// Every path lies within itself.
pub proof fn law_path_within_itself(p: Seq<char>)
    ensures
        path_starts_with(p, p),
{
    assert(path_components(p).take(path_components(p).len() as int) =~= path_components(p));
}

/// Lying within is transitive: a path within `b`, where `b` lies within `c`,
/// lies within `c`.
pub proof fn law_path_within_transitive(a: Seq<char>, b: Seq<char>, c: Seq<char>)
    requires
        path_starts_with(a, b),
        path_starts_with(b, c),
    ensures
        path_starts_with(a, c),
{
    let pa = path_components(a);
    let pb = path_components(b);
    let pc = path_components(c);
    assert(pa.take(pc.len() as int) =~= pa.take(pb.len() as int).take(pc.len() as int));
}

// ---------------------------------------------------------------------------
// Local directories
// ---------------------------------------------------------------------------

/// A directory of the local file system.
pub struct LocalConnector {
    root: String,
}

impl LocalConnector {
    pub fn new(root: String) -> (r: Self)
        ensures
            r.spec_root() == root@,
    {
        LocalConnector { root }
    }

    pub closed spec fn spec_root(&self) -> Seq<char> {
        self.root@
    }

    /// The root directory.
    pub fn root(&self) -> (r: &str)
        ensures
            r@ == self.spec_root(),
    {
        self.root.as_str()
    }

    /// The connector's name.
    pub fn name(&self) -> (r: &'static str)
        ensures
            r@ == "local"@,
    {
        "local"
    }

    /// Decides on a request once the requested path and the root have been
    /// resolved: it is served when the resolved path lies within the root, and
    /// refused as a traversal otherwise.
    pub fn validate_path(&self, canonical: String, root_canonical: &str) -> (r: Result<String, WikiGenError>)
        ensures
            path_starts_with(canonical@, root_canonical@) ==> (r matches Ok(c) && c@ == canonical@),
            !path_starts_with(canonical@, root_canonical@) ==> (r matches Err(WikiGenError::Storage(m))
                && m@ == "Path traversal denied: path escapes root directory"@),
    {
        if path_starts_with_exec(canonical.as_str(), root_canonical) {
            Ok(canonical)
        } else {
            Err(WikiGenError::Storage("Path traversal denied: path escapes root directory".to_string()))
        }
    }

    /// The check before an existence test, which runs on paths that need not
    /// exist: any `..` in the request refuses it.
    pub fn check_exists_request(&self, path: &str) -> (r: Result<(), WikiGenError>)
        ensures
            r is Ok <==> !contains(path@, ".."@),
            r is Err ==> (r matches Err(WikiGenError::Storage(m)) && m@ == "Path traversal denied"@),
    {
        let p = chars_of(path);
        let dd = chars_of("..");
        if contains_vec(&p, &dd) {
            Err(WikiGenError::Storage("Path traversal denied".to_string()))
        } else {
            Ok(())
        }
    }
}

// ---------------------------------------------------------------------------
// Mounted shares
// ---------------------------------------------------------------------------

/// An NFS share mounted on a local directory.
pub struct NfsConnector {
    inner: LocalConnector,
    mount_path: String,
    server: String,
    export_path: String,
}

/// The message when an NFS mount point is missing.
pub open spec fn nfs_missing_message(mount: Seq<char>, server: Seq<char>, export: Seq<char>) -> Seq<char> {
    "NFS mount path does not exist: "@ + mount + ". Mount "@ + server + ":"@ + export + " first."@
}

impl NfsConnector {
    pub fn new(server: String, export_path: String, mount_path: String) -> (r: Self)
        ensures
            r.spec_inner_root() == mount_path@,
            r.spec_mount_path() == mount_path@,
            r.spec_server() == server@,
            r.spec_export_path() == export_path@,
    {
        let inner = LocalConnector::new(mount_path.clone());
        NfsConnector { inner, mount_path, server, export_path }
    }

    pub closed spec fn spec_mount_path(&self) -> Seq<char> {
        self.mount_path@
    }

    pub closed spec fn spec_inner_root(&self) -> Seq<char> {
        self.inner.spec_root()
    }

    pub closed spec fn spec_server(&self) -> Seq<char> {
        self.server@
    }

    pub closed spec fn spec_export_path(&self) -> Seq<char> {
        self.export_path@
    }

    /// The local directory the share is served through.
    pub fn inner(&self) -> (r: &LocalConnector)
        ensures
            r.spec_root() == self.spec_inner_root(),
    {
        &self.inner
    }

    pub fn mount_path(&self) -> (r: &str)
        ensures
            r@ == self.spec_mount_path(),
    {
        self.mount_path.as_str()
    }

    pub fn name(&self) -> (r: &'static str)
        ensures
            r@ == "nfs"@,
    {
        "nfs"
    }

    /// Connecting succeeds when the mount point exists, and otherwise says
    /// which share to mount there.
    pub fn connect_checked(&self, mount_exists: bool) -> (r: Result<(), WikiGenError>)
        ensures
            r is Ok <==> mount_exists,
            r is Err ==> (r matches Err(WikiGenError::Storage(m))
                && m@ == nfs_missing_message(self.spec_mount_path(), self.spec_server(), self.spec_export_path())),
    {
        if mount_exists {
            Ok(())
        } else {
            let mut m = chars_of("NFS mount path does not exist: ");
            crate::text::append_str(&mut m, self.mount_path.as_str());
            crate::text::append_str(&mut m, ". Mount ");
            crate::text::append_str(&mut m, self.server.as_str());
            crate::text::append_str(&mut m, ":");
            crate::text::append_str(&mut m, self.export_path.as_str());
            crate::text::append_str(&mut m, " first.");
            Err(WikiGenError::Storage(string_of(m.as_slice())))
        }
    }
}

/// An SMB/CIFS share mounted on a local directory.
pub struct SmbConnector {
    inner: LocalConnector,
    mount_path: String,
    server: String,
    share: String,
}

/// The message when an SMB mount point is missing.
pub open spec fn smb_missing_message(mount: Seq<char>, server: Seq<char>, share: Seq<char>) -> Seq<char> {
    "SMB mount path does not exist: "@ + mount + ". Mount //"@ + server + "/"@ + share + " first."@
}

impl SmbConnector {
    pub fn new(server: String, share: String, mount_path: String) -> (r: Self)
        ensures
            r.spec_inner_root() == mount_path@,
            r.spec_mount_path() == mount_path@,
            r.spec_server() == server@,
            r.spec_share() == share@,
    {
        let inner = LocalConnector::new(mount_path.clone());
        SmbConnector { inner, mount_path, server, share }
    }

    pub closed spec fn spec_mount_path(&self) -> Seq<char> {
        self.mount_path@
    }

    pub closed spec fn spec_inner_root(&self) -> Seq<char> {
        self.inner.spec_root()
    }

    pub closed spec fn spec_server(&self) -> Seq<char> {
        self.server@
    }

    pub closed spec fn spec_share(&self) -> Seq<char> {
        self.share@
    }

    /// The local directory the share is served through.
    pub fn inner(&self) -> (r: &LocalConnector)
        ensures
            r.spec_root() == self.spec_inner_root(),
    {
        &self.inner
    }

    pub fn mount_path(&self) -> (r: &str)
        ensures
            r@ == self.spec_mount_path(),
    {
        self.mount_path.as_str()
    }

    pub fn name(&self) -> (r: &'static str)
        ensures
            r@ == "smb"@,
    {
        "smb"
    }

    /// Connecting succeeds when the mount point exists, and otherwise says
    /// which share to mount there.
    pub fn connect_checked(&self, mount_exists: bool) -> (r: Result<(), WikiGenError>)
        ensures
            r is Ok <==> mount_exists,
            r is Err ==> (r matches Err(WikiGenError::Storage(m))
                && m@ == smb_missing_message(self.spec_mount_path(), self.spec_server(), self.spec_share())),
    {
        if mount_exists {
            Ok(())
        } else {
            let mut m = chars_of("SMB mount path does not exist: ");
            crate::text::append_str(&mut m, self.mount_path.as_str());
            crate::text::append_str(&mut m, ". Mount //");
            crate::text::append_str(&mut m, self.server.as_str());
            crate::text::append_str(&mut m, "/");
            crate::text::append_str(&mut m, self.share.as_str());
            crate::text::append_str(&mut m, " first.");
            Err(WikiGenError::Storage(string_of(m.as_slice())))
        }
    }
}

// ---------------------------------------------------------------------------
// Git repositories
// ---------------------------------------------------------------------------

/// How to authenticate to a Git remote.
#[derive(Debug, Clone)]
pub enum GitAuth {
    Anonymous,
    Token(String),
    SshKey { private_key: String, passphrase: Option<String> },
}

/// A Git repository, cloned into a local directory on connect.
pub struct GitConnector {
    pub url: String,
    pub branch: String,
    pub auth: GitAuth,
    pub repo_path: Option<String>,
}

impl GitConnector {
    /// A connector for `url` on branch `main`, without credentials, not yet cloned.
    pub fn new(url: String) -> (r: Self)
        ensures
            r.url@ == url@,
            r.branch@ == "main"@,
            r.auth is Anonymous,
            r.repo_path is None,
    {
        GitConnector { url, branch: "main".to_string(), auth: GitAuth::Anonymous, repo_path: None }
    }

    pub fn with_branch(self, branch: String) -> (r: Self)
        ensures
            r.url == self.url,
            r.branch == branch,
            r.auth == self.auth,
            r.repo_path == self.repo_path,
    {
        GitConnector { branch, ..self }
    }

    pub fn with_token(self, token: String) -> (r: Self)
        ensures
            r.url == self.url,
            r.branch == self.branch,
            r.auth == GitAuth::Token(token),
            r.repo_path == self.repo_path,
    {
        GitConnector { auth: GitAuth::Token(token), ..self }
    }

    pub fn with_ssh_key(self, private_key: String, passphrase: Option<String>) -> (r: Self)
        ensures
            r.url == self.url,
            r.branch == self.branch,
            r.auth == (GitAuth::SshKey { private_key, passphrase }),
            r.repo_path == self.repo_path,
    {
        GitConnector { auth: GitAuth::SshKey { private_key, passphrase }, ..self }
    }

    pub fn name(&self) -> (r: &'static str)
        ensures
            r@ == "git"@,
    {
        "git"
    }

    /// The directory of the clone, or the refusal of a connector that has not
    /// cloned yet.
    pub fn checkout(&self) -> (r: Result<&str, WikiGenError>)
        ensures
            match self.repo_path {
                Some(p) => r matches Ok(x) && x@ == p@,
                None => r matches Err(WikiGenError::Storage(m)) && m@ == "Not connected"@,
            },
    {
        match &self.repo_path {
            Some(p) => Ok(p.as_str()),
            None => Err(WikiGenError::Storage("Not connected".to_string())),
        }
    }
}

} // verus!
