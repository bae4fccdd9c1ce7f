use memoryos_wiki_gen::baidu::BaiduPanConnector;
use memoryos_wiki_gen::cloud::{
    parse_u64, AliyunDriveConnector, AzureBlobConnector, DropboxConnector, GoogleDriveConnector,
    OneDriveConnector,
};
use memoryos_wiki_gen::error::WikiGenError;
use memoryos_wiki_gen::json::JsonValue;
use memoryos_wiki_gen::object_store::{CosConnector, GcsConnector, S3Connector};
use memoryos_wiki_gen::sftp::{SftpAuth, SftpConnector};
use memoryos_wiki_gen::storage::FileEntry;
use memoryos_wiki_gen::webdav::WebDavConnector;

fn s(x: &str) -> JsonValue {
    JsonValue::Str(x.to_string())
}

fn n(x: &str) -> JsonValue {
    JsonValue::Number(x.to_string())
}

fn obj(members: Vec<(&str, JsonValue)>) -> JsonValue {
    JsonValue::Object(members.into_iter().map(|(k, v)| (k.to_string(), v)).collect())
}

fn views(v: &[FileEntry]) -> Vec<(String, bool, u64)> {
    v.iter().map(|e| (e.path.clone(), e.is_dir, e.size)).collect()
}

fn chars(x: &str) -> Vec<char> {
    x.chars().collect()
}

#[test]
fn test_parse_u64_forms() {
    assert_eq!(parse_u64(&chars("123")), Some(123));
    assert_eq!(parse_u64(&chars("+7")), Some(7));
    assert_eq!(parse_u64(&chars("0042")), Some(42));
    assert_eq!(parse_u64(&chars("18446744073709551615")), Some(u64::MAX));
    assert_eq!(parse_u64(&chars("18446744073709551616")), None);
    assert_eq!(parse_u64(&chars("")), None);
    assert_eq!(parse_u64(&chars("+")), None);
    assert_eq!(parse_u64(&chars("12a")), None);
    assert_eq!(parse_u64(&chars("-1")), None);
}

#[test]
fn test_azure_urls() {
    let c = AzureBlobConnector::new("acct".to_string(), "cont".to_string(), "sv=1".to_string());
    assert_eq!(c.name(), "azure_blob");
    assert_eq!(c.build_url("a.md"), "https://acct.blob.core.windows.net/conta.md?sv=1");
    assert_eq!(
        c.connect_url(),
        "https://acct.blob.core.windows.net/cont?restype=container&comp=list&maxresults=1&sv=1"
    );
    assert_eq!(
        c.list_url("docs"),
        "https://acct.blob.core.windows.net/cont?restype=container&comp=list&prefix=docs&sv=1"
    );
    let p = c.with_prefix("base".to_string());
    assert_eq!(p.build_url("a.md"), "https://acct.blob.core.windows.net/contbase/a.md?sv=1");
}

#[test]
fn test_azure_list_entries() {
    let body = "<EnumerationResults><Blobs>\
        <Blob><Name>docs/a.md</Name><Properties><Content-Length>42</Content-Length></Properties></Blob>\
        <Blob><Name>docs/sub/</Name><Properties><Content-Length>7</Content-Length></Properties></Blob>\
        </Blobs></EnumerationResults>";
    let c = AzureBlobConnector::new("acct".to_string(), "cont".to_string(), "sv=1".to_string());
    let entries = c.list_entries(body).unwrap();
    // A size is read when the name closes, so each blob takes the length
    // read before its name.
    assert_eq!(
        views(&entries),
        vec![("docs/a.md".to_string(), false, 0), ("docs/sub/".to_string(), true, 42)]
    );
    let prefixed = c.with_prefix("docs".to_string());
    let entries = prefixed.list_entries(body).unwrap();
    assert_eq!(views(&entries), vec![("a.md".to_string(), false, 0), ("sub/".to_string(), true, 42)]);
}

#[test]
fn test_azure_list_error() {
    let c = AzureBlobConnector::new("a".to_string(), "c".to_string(), "t".to_string());
    match c.list_entries("<a></b>") {
        Err(WikiGenError::Storage(m)) => assert!(m.starts_with("Azure XML parse error: ")),
        other => panic!("unexpected {:?}", other.map(|v| views(&v))),
    }
}

#[test]
fn test_dropbox_paths_and_listing() {
    let c = DropboxConnector::new("tok".to_string());
    assert_eq!(c.name(), "dropbox");
    assert_eq!(c.access_token(), "tok");
    assert_eq!(c.folder_path(""), "");
    assert_eq!(c.folder_path("/"), "");
    assert_eq!(c.folder_path("/a/b/"), "/a/b");
    assert_eq!(c.file_path("x.md"), "/x.md");
    let data = obj(vec![(
        "entries",
        JsonValue::Array(vec![
            obj(vec![(".tag", s("folder")), ("name", s("d")), ("path_display", s("/d"))]),
            obj(vec![(".tag", s("file")), ("name", s("f.txt")), ("size", n("12"))]),
        ]),
    )]);
    assert_eq!(
        views(&c.list_entries(&data)),
        vec![("d".to_string(), true, 0), ("f.txt".to_string(), false, 12)]
    );
    let meta = c.metadata_of(&obj(vec![(".tag", s("file")), ("size", n("99"))]));
    assert_eq!(meta.size, 99);
    assert!(!meta.is_dir);
    assert!(meta.modified.is_none());
    assert!(c.list_entries(&JsonValue::Null).is_empty());
}

#[test]
fn test_onedrive_urls_and_listing() {
    let c = OneDriveConnector::new("tok".to_string());
    assert_eq!(c.name(), "onedrive");
    assert_eq!(c.api_base(), "https://graph.microsoft.com/v1.0/me/drive");
    assert_eq!(c.list_url("/"), "https://graph.microsoft.com/v1.0/me/drive/root/children");
    assert_eq!(c.list_url("/a/b/"), "https://graph.microsoft.com/v1.0/me/drive/root:/a/b:/children");
    assert_eq!(c.item_url("a.md"), "https://graph.microsoft.com/v1.0/me/drive/root:/a.md");
    let d = OneDriveConnector::new("tok".to_string()).with_drive_id("D1".to_string());
    assert_eq!(d.api_base(), "https://graph.microsoft.com/v1.0/drives/D1");
    let body = obj(vec![(
        "value",
        JsonValue::Array(vec![
            obj(vec![("name", s("x")), ("size", n("3"))]),
            obj(vec![("name", s("y")), ("folder", obj(vec![]))]),
        ]),
    )]);
    assert_eq!(
        views(&c.list_entries("/a/", &body)),
        vec![("a/x".to_string(), false, 3), ("a/y".to_string(), true, 0)]
    );
    assert_eq!(views(&c.list_entries("", &body))[0].0, "x");
    let meta = c.metadata_of(&obj(vec![("size", n("8")), ("folder", obj(vec![]))]));
    assert_eq!(meta.size, 8);
    assert!(meta.is_dir);
}

#[test]
fn test_google_drive_query_and_listing() {
    let c = GoogleDriveConnector::new("tok".to_string());
    assert_eq!(c.name(), "google_drive");
    assert_eq!(c.list_query(""), "'root' in parents and trashed = false");
    assert_eq!(c.list_query("F1"), "'F1' in parents and trashed = false");
    assert_eq!(
        c.list_url("/"),
        "https://www.googleapis.com/drive/v3/files?q=%27root%27%20in%20parents%20and%20trashed%20%3D%20false&fields=files(id,name,mimeType,size)"
    );
    let f = GoogleDriveConnector::new("tok".to_string()).with_folder_id("F9".to_string());
    assert_eq!(f.list_query("/"), "'F9' in parents and trashed = false");
    let body = obj(vec![(
        "files",
        JsonValue::Array(vec![
            obj(vec![("name", s("dir")), ("mimeType", s("application/vnd.google-apps.folder"))]),
            obj(vec![("name", s("a.txt")), ("mimeType", s("text/plain")), ("size", s("5"))]),
            obj(vec![("name", s("b.txt")), ("size", n("5"))]),
        ]),
    )]);
    assert_eq!(
        views(&c.list_entries(&body)),
        vec![("dir".to_string(), true, 0), ("a.txt".to_string(), false, 5), ("b.txt".to_string(), false, 0)]
    );
    let meta = c.metadata_of(&obj(vec![("mimeType", s("text/plain")), ("size", s("17"))]));
    assert_eq!(meta.size, 17);
    assert!(!meta.is_dir);
}

#[test]
fn test_aliyun_listing_and_download_url() {
    let c = AliyunDriveConnector::new("tok".to_string(), "drv".to_string());
    assert_eq!(c.name(), "aliyun_drive");
    assert_eq!(c.drive_id(), "drv");
    assert_eq!(c.parent_file_id(""), "root");
    assert_eq!(c.parent_file_id("abc"), "abc");
    let r = AliyunDriveConnector::new("tok".to_string(), "drv".to_string()).with_root_folder("R".to_string());
    assert_eq!(r.parent_file_id("/"), "R");
    let data = obj(vec![(
        "items",
        JsonValue::Array(vec![
            obj(vec![("name", s("d")), ("type", s("folder"))]),
            obj(vec![("name", s("f")), ("type", s("file")), ("size", n("4"))]),
        ]),
    )]);
    assert_eq!(views(&c.list_entries(&data)), vec![("d".to_string(), true, 0), ("f".to_string(), false, 4)]);
    assert_eq!(c.download_url_of(&obj(vec![("url", s("https://x/y"))])).unwrap(), "https://x/y");
    match c.download_url_of(&obj(vec![])) {
        Err(WikiGenError::Storage(m)) => assert_eq!(m, "No download URL"),
        _ => panic!("expected an error"),
    }
}

fn baidu_listing() -> JsonValue {
    obj(vec![(
        "list",
        JsonValue::Array(vec![
            obj(vec![("server_filename", s("sub")), ("isdir", n("1")), ("fs_id", n("5"))]),
            obj(vec![("server_filename", s("a.md")), ("isdir", n("0")), ("size", n("10")), ("fs_id", n("77"))]),
            obj(vec![("server_filename", s("a.md")), ("size", n("20")), ("fs_id", n("88"))]),
            obj(vec![("server_filename", s("nofs"))]),
        ]),
    )])
}

#[test]
fn test_baidu_paths_and_urls() {
    let c = BaiduPanConnector::new("tok".to_string());
    assert_eq!(c.name(), "baidu_pan");
    assert_eq!(c.app_path(), "/apps/memoryos");
    assert_eq!(c.full_path(""), "/apps/memoryos");
    assert_eq!(c.full_path("/docs/a.md/"), "/apps/memoryos/docs/a.md");
    assert_eq!(c.file_name("docs/a.md"), "a.md");
    assert_eq!(c.full_path("docs/a.md"), format!("{}/{}", "/apps/memoryos/docs", c.file_name("docs/a.md")));
    assert_eq!(c.file_name("/"), "memoryos");
    assert_eq!(
        c.connect_url(),
        "https://pan.baidu.com/rest/2.0/xpan/nas?method=uinfo&access_token=tok"
    );
    assert_eq!(
        c.list_url("/"),
        "https://pan.baidu.com/rest/2.0/xpan/file?method=list&access_token=tok&dir=%2Fapps%2Fmemoryos"
    );
    assert_eq!(
        c.parent_list_url("docs/a.md"),
        "https://pan.baidu.com/rest/2.0/xpan/file?method=list&access_token=tok&dir=%2Fapps%2Fmemoryos%2Fdocs"
    );
    assert_eq!(
        c.dlink_url(123),
        "https://pan.baidu.com/rest/2.0/xpan/multimedia?method=filemetas&access_token=tok&fsids=[123]&dlink=1"
    );
    assert_eq!(c.download_url("https://d/x?a=1"), "https://d/x?a=1&access_token=tok");
    let w = BaiduPanConnector::new("tok".to_string()).with_app_path("noslash".to_string());
    assert_eq!(w.file_name(""), "noslash");
    assert_eq!(
        w.parent_list_url(""),
        "https://pan.baidu.com/rest/2.0/xpan/file?method=list&access_token=tok&dir="
    );
}

#[test]
fn test_baidu_listing_lookups() {
    let c = BaiduPanConnector::new("tok".to_string());
    let data = baidu_listing();
    assert_eq!(
        views(&c.list_entries(&data)),
        vec![
            ("sub".to_string(), true, 0),
            ("a.md".to_string(), false, 10),
            ("a.md".to_string(), false, 20),
            ("nofs".to_string(), false, 0),
        ]
    );
    assert!(c.has_file(&data, "a.md"));
    assert!(!c.has_file(&data, "b.md"));
    let meta = c.metadata_of(&data, "a.md").unwrap();
    assert_eq!(meta.size, 10);
    assert!(!meta.is_dir);
    assert!(c.metadata_of(&data, "sub").unwrap().is_dir);
    match c.metadata_of(&data, "zzz") {
        Err(WikiGenError::Storage(m)) => assert_eq!(m, "File not found"),
        _ => panic!("expected an error"),
    }
    assert_eq!(c.fs_id_of(&data, "a.md").unwrap(), 77);
    for missing in ["nofs", "zzz"] {
        match c.fs_id_of(&data, missing) {
            Err(WikiGenError::Storage(m)) => assert_eq!(m, "File not found on Baidu Pan"),
            _ => panic!("expected an error"),
        }
    }
}

#[test]
fn test_baidu_dlink() {
    let c = BaiduPanConnector::new("tok".to_string());
    let reply = obj(vec![("list", JsonValue::Array(vec![obj(vec![("dlink", s("https://d/1"))])]))]);
    assert_eq!(c.dlink_of(&reply).unwrap(), "https://d/1");
    for bad in [obj(vec![("list", JsonValue::Array(vec![]))]), obj(vec![]), JsonValue::Null] {
        match c.dlink_of(&bad) {
            Err(WikiGenError::Storage(m)) => assert_eq!(m, "No download link"),
            _ => panic!("expected an error"),
        }
    }
}

#[test]
fn test_webdav_urls_and_auth() {
    let c = WebDavConnector::new("http://h/dav//".to_string());
    assert_eq!(c.name(), "webdav");
    assert_eq!(c.base_url(), "http://h/dav");
    assert_eq!(c.build_url("/a/b"), "http://h/dav/a/b");
    assert_eq!(c.build_url(""), "http://h/dav/");
    assert!(c.credentials().is_none());
    let a = c.with_auth("u".to_string(), "p".to_string());
    assert_eq!(a.credentials(), Some(("u".to_string(), "p".to_string())));
}

#[test]
fn test_webdav_propfind_listing() {
    let body = "<?xml version=\"1.0\"?>\n\
        <d:href>/dav/</d:href>\n\
        <d:href>/dav/file.txt</d:href>\r\n\
        <d:response><d:href>/dav/sub/</d:href></d:response>\r\n\
        <d:href>/</d:href>\n\
        no link here";
    let c = WebDavConnector::new("http://h".to_string());
    assert_eq!(
        views(&c.list_entries(body)),
        vec![("dav/".to_string(), true, 0), ("dav/sub/".to_string(), true, 0)]
    );
    assert!(c.list_entries("").is_empty());
}

#[test]
fn test_webdav_metadata_from_length() {
    let c = WebDavConnector::new("http://h".to_string());
    assert_eq!(c.size_of(Some("42")), 42);
    assert_eq!(c.size_of(Some("x")), 0);
    assert_eq!(c.size_of(None), 0);
    let m = c.metadata_of(Some("7"));
    assert_eq!(m.size, 7);
    assert!(!m.is_dir);
    assert!(m.modified.is_none());
}

#[test]
fn test_s3_keys_and_listing() {
    let c = S3Connector::new("b".to_string(), "us-east-1".to_string(), "ak".to_string(), "sk".to_string());
    assert_eq!(c.name(), "s3");
    assert_eq!(c.key("a.md"), "a.md");
    assert!(c.endpoint().is_none());
    let p = c.with_prefix("docs".to_string()).with_endpoint("http://minio".to_string());
    assert_eq!(p.key("a.md"), "docs/a.md");
    assert_eq!(p.endpoint(), Some("http://minio"));
    assert_eq!(p.bucket(), "b");
    assert_eq!(p.region(), "us-east-1");
    let objects = vec![
        (Some("docs/a.md".to_string()), Some(5)),
        (None, Some(9)),
        (Some("other/".to_string()), None),
        (Some("docs/neg".to_string()), Some(-1)),
    ];
    assert_eq!(
        views(&p.list_entries(&objects)),
        vec![
            ("/a.md".to_string(), false, 5),
            ("other/".to_string(), true, 0),
            ("/neg".to_string(), false, u64::MAX),
        ]
    );
    let m = p.metadata_of(Some(12), None);
    assert_eq!(m.size, 12);
    assert!(!m.is_dir);
}

#[test]
fn test_gcs_and_cos_endpoints() {
    let g = GcsConnector::new("b".to_string(), "ak".to_string(), "sk".to_string());
    assert_eq!(g.name(), "gcs");
    assert_eq!(g.inner().region(), "auto");
    assert_eq!(g.inner().endpoint(), Some("https://storage.googleapis.com"));
    let g = g.with_prefix("p".to_string());
    assert_eq!(g.inner().key("x"), "p/x");
    let c = CosConnector::new("ap-guangzhou".to_string(), "bk".to_string(), "id".to_string(), "key".to_string());
    assert_eq!(c.name(), "cos");
    assert_eq!(c.inner().endpoint(), Some("https://bk.cos.ap-guangzhou.myqcloud.com"));
    assert_eq!(c.inner().access_key(), "id");
    assert_eq!(c.with_prefix("q".to_string()).inner().prefix(), "q");
}

#[test]
fn test_sftp_address_and_auth() {
    let c = SftpConnector::new("host".to_string(), "me".to_string());
    assert_eq!(c.name(), "sftp");
    assert_eq!(c.address(), "host:22");
    assert!(matches!(c.auth(), SftpAuth::Anonymous));
    let k = c.with_key("/k".to_string()).with_port(2222);
    assert_eq!(k.address(), "host:2222");
    assert!(matches!(k.auth(), SftpAuth::KeyFile(ref p) if p == "/k"));
    let both = k.with_password("pw".to_string());
    assert!(matches!(both.auth(), SftpAuth::Password(ref p) if p == "pw"));
}
