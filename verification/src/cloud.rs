//! Cloud storage connectors: their settings, the requests they make, and the
//! reading of what the services answer. The requests themselves are sent by
//! the caller.

use vstd::prelude::*;

use crate::error::WikiGenError;
use crate::json::JsonValue;
use crate::storage::{FileEntry, FileMetadata};
use crate::text::{
    append_str, append_vec, chars_of, ends_with, ends_with_vec, starts_with, starts_with_vec, string_of,
    subvec, trim_start_matches, trim_start_matches_vec,
};

use quick_xml::events::Event;

verus! {

// ---------------------------------------------------------------------------
// Numbers
// ---------------------------------------------------------------------------

pub open spec fn is_digit(c: char) -> bool {
    '0' <= c && c <= '9'
}

/// The value of a string of decimal digits.
pub open spec fn digits_value(s: Seq<char>) -> int
    decreases s.len(),
{
    if s.len() == 0 {
        0
    } else {
        digits_value(s.drop_last()) * 10 + (s.last() as int - '0' as int)
    }
}

/// `str::parse::<u64>`: an optional `+`, then one or more decimal digits
/// whose value fits in `u64`.
pub open spec fn all_digits(d: Seq<char>) -> bool {
    forall|i: int| 0 <= i < d.len() ==> is_digit(#[trigger] d[i])
}

/// The digits of a number text: without a leading `+`.
pub open spec fn unsigned_part(s: Seq<char>) -> Seq<char> {
    if s.len() > 0 && s[0] == '+' { s.drop_first() } else { s }
}

pub open spec fn parse_u64_spec(s: Seq<char>) -> Option<u64> {
    let d = unsigned_part(s);
    if d.len() > 0 && all_digits(d) && digits_value(d) <= u64::MAX {
        Some(digits_value(d) as u64)
    } else {
        None
    }
}

proof fn lemma_digits_value_grows(d: Seq<char>, k: int)
    requires
        0 <= k <= d.len(),
        forall|i: int| 0 <= i < d.len() ==> is_digit(#[trigger] d[i]),
    ensures
        digits_value(d.take(k)) <= digits_value(d),
        digits_value(d) >= 0,
    decreases d.len(),
{
    if d.len() > 0 {
        let p = d.drop_last();
        assert forall|i: int| 0 <= i < p.len() implies is_digit(#[trigger] p[i]) by {
            assert(p[i] == d[i]);
        }
        if k == d.len() {
            assert(d.take(k) =~= d);
            lemma_digits_value_grows(p, 0);
        } else {
            assert(d.take(k) =~= p.take(k));
            lemma_digits_value_grows(p, k);
        }
        assert(is_digit(d.last()));
        let v = digits_value(p);
        assert(v * 10 >= v) by (nonlinear_arith)
            requires
                v >= 0,
        ;
    }
}

/// `str::parse::<u64>`.
pub fn parse_u64(s: &Vec<char>) -> (r: Option<u64>)
    ensures
        r == parse_u64_spec(s@),
{
    let start: usize = if s.len() > 0 && s[0] == '+' { 1 } else { 0 };
    let ghost d = unsigned_part(s@);
    assert(d =~= s@.subrange(start as int, s@.len() as int));
    if start >= s.len() {
        return None;
    }
    let mut acc: u64 = 0;
    let mut k: usize = start;
    while k < s.len()
        invariant
            start <= k <= s@.len(),
            start < s@.len(),
            d =~= s@.subrange(start as int, s@.len() as int),
            d == unsigned_part(s@),
            forall|i: int| 0 <= i < k - start ==> is_digit(#[trigger] d[i]),
            acc as int == digits_value(d.take(k - start)),
        decreases s@.len() - k,
    {
        let c = s[k];
        assert(d[k - start] == c);
        if !('0' <= c && c <= '9') {
            assert(!is_digit(d[(k - start) as int]));
            assert(!all_digits(d));
            return None;
        }
        let dig: u64 = (c as u32 - '0' as u32) as u64;
        assert(d.take(k - start + 1).drop_last() =~= d.take(k - start));
        assert(dig as int == c as int - '0' as int);
        if acc > (u64::MAX - dig) / 10 {
            proof {
                assert(d.take(k - start + 1).last() == c);
                assert(digits_value(d.take(k - start + 1)) == acc * 10 + dig);
                assert(acc * 10 + dig > u64::MAX) by (nonlinear_arith)
                    requires
                        acc > (u64::MAX - dig) / 10,
                        dig <= 9,
                ;
                assert forall|i: int| 0 <= i < k - start + 1 implies is_digit(#[trigger] d[i]) by {}
                if all_digits(d) {
                    lemma_digits_value_grows(d, k - start + 1);
                }
            }
            return None;
        }
        proof {
            assert(acc * 10 + dig <= u64::MAX) by (nonlinear_arith)
                requires
                    acc <= (u64::MAX - dig) / 10,
                    dig <= 9,
            ;
        }
        acc = acc * 10 + dig;
        k = k + 1;
    }
    assert(d.take(k - start) =~= d);
    Some(acc)
}

// ---------------------------------------------------------------------------
// XML replies
// ---------------------------------------------------------------------------

/// One event of an XML reader, as far as the connectors read it.
pub enum XmlEvent {
    /// An opening tag, by its local name.
    Start(Vec<u8>),
    /// Text, unescaped; `None` where the unescaping fails.
    Text(Option<String>),
    /// A closing tag, by its local name.
    End(Vec<u8>),
    /// A reading error, by its message; the last event.
    Error(String),
    Other,
}

pub enum XmlEventView {
    Start(Seq<u8>),
    Text(Option<Seq<char>>),
    End(Seq<u8>),
    Error(Seq<char>),
    Other,
}

impl View for XmlEvent {
    type V = XmlEventView;

    open spec fn view(&self) -> XmlEventView {
        match self {
            XmlEvent::Start(n) => XmlEventView::Start(n@),
            XmlEvent::Text(t) => XmlEventView::Text(match t {
                Some(x) => Some(x@),
                None => None,
            }),
            XmlEvent::End(n) => XmlEventView::End(n@),
            XmlEvent::Error(m) => XmlEventView::Error(m@),
            XmlEvent::Other => XmlEventView::Other,
        }
    }
}

pub open spec fn event_views(v: Seq<XmlEvent>) -> Seq<XmlEventView> {
    Seq::new(v.len(), |i: int| v[i]@)
}

/// The events `quick_xml::Reader` reads from a text, up to its end or its
/// first error.
pub uninterp spec fn xml_events(body: Seq<char>) -> Seq<XmlEventView>;

/// Reads the events of a text with `quick_xml::Reader::read_event`, up to
/// the end of the text or the first error, which is the last event then.
#[verifier::external_body]
fn read_xml_events(body: &str) -> (r: Vec<XmlEvent>)
    ensures
        event_views(r@) == xml_events(body@),
{
    let mut reader = quick_xml::Reader::from_str(body);
    let mut out = Vec::new();
    loop {
        match reader.read_event() {
            Ok(Event::Start(e)) => out.push(XmlEvent::Start(e.local_name().as_ref().to_vec())),
            Ok(Event::Text(e)) => out.push(XmlEvent::Text(e.unescape().ok().map(|t| t.into_owned()))),
            Ok(Event::End(e)) => out.push(XmlEvent::End(e.local_name().as_ref().to_vec())),
            Ok(Event::Eof) => return out,
            Err(e) => {
                out.push(XmlEvent::Error(e.to_string()));
                return out;
            },
            Ok(_) => out.push(XmlEvent::Other),
        }
    }
}

// ---------------------------------------------------------------------------
// Azure Blob Storage
// ---------------------------------------------------------------------------

/// The tag of a blob's name.
pub open spec fn name_tag() -> Seq<u8> {
    seq![78u8, 97u8, 109u8, 101u8]
}

/// The tag of a blob's size.
pub open spec fn length_tag() -> Seq<u8> {
    seq![67u8, 111u8, 110u8, 116u8, 101u8, 110u8, 116u8, 45u8, 76u8, 101u8, 110u8, 103u8, 116u8, 104u8]
}

fn name_tag_exec() -> (r: Vec<u8>)
    ensures
        r@ == name_tag(),
{
    let mut v: Vec<u8> = Vec::new();
    v.push(78);
    v.push(97);
    v.push(109);
    v.push(101);
    assert(v@ =~= name_tag());
    v
}

fn length_tag_exec() -> (r: Vec<u8>)
    ensures
        r@ == length_tag(),
{
    let mut v: Vec<u8> = Vec::new();
    v.push(67);
    v.push(111);
    v.push(110);
    v.push(116);
    v.push(101);
    v.push(110);
    v.push(116);
    v.push(45);
    v.push(76);
    v.push(101);
    v.push(110);
    v.push(103);
    v.push(116);
    v.push(104);
    assert(v@ =~= length_tag());
    v
}

fn bytes_eq(a: &Vec<u8>, b: &Vec<u8>) -> (r: bool)
    ensures
        r == (a@ == b@),
{
    if a.len() != b.len() {
        return false;
    }
    let mut k: usize = 0;
    while k < a.len()
        invariant
            k <= a@.len(),
            a@.len() == b@.len(),
            forall|i: int| 0 <= i < k ==> a@[i] == b@[i],
        decreases a@.len() - k,
    {
        if a[k] != b[k] {
            return false;
        }
        k = k + 1;
    }
    assert(a@ =~= b@);
    true
}

/// `str::strip_prefix(p).unwrap_or(s)`.
pub open spec fn strip_prefix_or_self(s: Seq<char>, p: Seq<char>) -> Seq<char> {
    if starts_with(s, p) { s.skip(p.len() as int) } else { s }
}

/// An entry as values: path, whether it is a directory, size.
pub type EntryView = (Seq<char>, bool, u64);

pub open spec fn entry_views(v: Seq<FileEntry>) -> Seq<EntryView> {
    Seq::new(v.len(), |i: int| (v[i].path@, v[i].is_dir, v[i].size))
}

/// Where the reading of a blob list stands: inside a name or a size, the
/// text of each so far, and the entries found.
pub struct AzureScan {
    pub in_name: bool,
    pub in_size: bool,
    pub name: Seq<char>,
    pub size: Seq<char>,
    pub entries: Seq<EntryView>,
}

pub open spec fn azure_start() -> AzureScan {
    AzureScan { in_name: false, in_size: false, name: Seq::empty(), size: Seq::empty(), entries: Seq::empty() }
}

/// The entry a blob name gives: the name without the connector's prefix and
/// leading `/`, sized by the size text read so far (0 when it is not a number).
pub open spec fn azure_entry(name: Seq<char>, size: Seq<char>, prefix: Seq<char>) -> EntryView {
    let path = trim_start_matches(strip_prefix_or_self(name, prefix), "/"@);
    (path, ends_with(path, "/"@), match parse_u64_spec(size) {
        Some(n) => n,
        None => 0,
    })
}

/// One event of a blob list read.
pub open spec fn azure_step(st: AzureScan, ev: XmlEventView, prefix: Seq<char>) -> AzureScan {
    match ev {
        XmlEventView::Start(n) => if n == name_tag() {
            AzureScan { in_name: true, name: Seq::empty(), ..st }
        } else if n == length_tag() {
            AzureScan { in_size: true, size: Seq::empty(), ..st }
        } else {
            st
        },
        XmlEventView::Text(Some(t)) => if st.in_name {
            AzureScan { name: st.name + t, ..st }
        } else if st.in_size {
            AzureScan { size: st.size + t, ..st }
        } else {
            st
        },
        XmlEventView::End(n) => if n == name_tag() && st.in_name {
            let e = azure_entry(st.name, st.size, prefix);
            AzureScan {
                in_name: false,
                size: Seq::empty(),
                entries: if e.0.len() > 0 { st.entries.push(e) } else { st.entries },
                ..st
            }
        } else if n == length_tag() {
            AzureScan { in_size: false, ..st }
        } else {
            st
        },
        _ => st,
    }
}

/// The reading of the first `k` events: the scan, or the first error's message.
pub open spec fn azure_scan(evs: Seq<XmlEventView>, prefix: Seq<char>, k: int) -> Result<AzureScan, Seq<char>>
    decreases k,
{
    if k <= 0 || k > evs.len() {
        Ok(azure_start())
    } else {
        match azure_scan(evs, prefix, k - 1) {
            Err(m) => Err(m),
            Ok(st) => match evs[k - 1] {
                XmlEventView::Error(m) => Err(m),
                e => Ok(azure_step(st, e, prefix)),
            },
        }
    }
}

/// The entries of a blob list, or the message of the reading error.
pub open spec fn azure_listing(evs: Seq<XmlEventView>, prefix: Seq<char>) -> Result<Seq<EntryView>, Seq<char>> {
    match azure_scan(evs, prefix, evs.len() as int) {
        Ok(st) => Ok(st.entries),
        Err(m) => Err(m),
    }
}

/// An Azure Blob Storage container, reached with a SAS token.
pub struct AzureBlobConnector {
    account: String,
    container: String,
    sas_token: String,
    prefix: String,
}

impl AzureBlobConnector {
    pub closed spec fn spec_account(&self) -> Seq<char> {
        self.account@
    }

    pub closed spec fn spec_container(&self) -> Seq<char> {
        self.container@
    }

    pub closed spec fn spec_sas(&self) -> Seq<char> {
        self.sas_token@
    }

    pub closed spec fn spec_prefix(&self) -> Seq<char> {
        self.prefix@
    }

    /// The container's address.
    pub open spec fn spec_base_url(&self) -> Seq<char> {
        "https://"@ + self.spec_account() + ".blob.core.windows.net/"@ + self.spec_container()
    }

    /// The key of a path: the path under the prefix, when there is one.
    pub open spec fn spec_key(&self, path: Seq<char>) -> Seq<char> {
        if self.spec_prefix().len() == 0 { path } else { self.spec_prefix() + "/"@ + path }
    }

    pub fn new(account: String, container: String, sas_token: String) -> (r: Self)
        ensures
            r.spec_account() == account@,
            r.spec_container() == container@,
            r.spec_sas() == sas_token@,
            r.spec_prefix().len() == 0,
    {
        AzureBlobConnector { account, container, sas_token, prefix: String::new() }
    }

    pub fn with_prefix(self, prefix: String) -> (r: Self)
        ensures
            r.spec_account() == self.spec_account(),
            r.spec_container() == self.spec_container(),
            r.spec_sas() == self.spec_sas(),
            r.spec_prefix() == prefix@,
    {
        AzureBlobConnector { prefix, ..self }
    }

    pub fn name(&self) -> (r: &'static str)
        ensures
            r@ == "azure_blob"@,
    {
        "azure_blob"
    }

    fn base_url(&self) -> (r: Vec<char>)
        ensures
            r@ == self.spec_base_url(),
    {
        let mut out = chars_of("https://");
        append_str(&mut out, self.account.as_str());
        append_str(&mut out, ".blob.core.windows.net/");
        append_str(&mut out, self.container.as_str());
        out
    }

    fn key(&self, path: &str) -> (r: Vec<char>)
        ensures
            r@ == self.spec_key(path@),
    {
        if chars_of(self.prefix.as_str()).len() == 0 {
            chars_of(path)
        } else {
            let mut out = chars_of(self.prefix.as_str());
            append_str(&mut out, "/");
            append_str(&mut out, path);
            out
        }
    }

    /// The address of a blob: the container's address, the key, then the SAS token.
    pub fn build_url(&self, path: &str) -> (r: String)
        ensures
            r@ == self.spec_base_url() + self.spec_key(path@) + "?"@ + self.spec_sas(),
    {
        let mut out = self.base_url();
        append_vec(&mut out, &self.key(path));
        append_str(&mut out, "?");
        append_str(&mut out, self.sas_token.as_str());
        string_of(out.as_slice())
    }

    /// The request that checks the token: a list of at most one blob.
    pub fn connect_url(&self) -> (r: String)
        ensures
            r@ == self.spec_base_url() + "?restype=container&comp=list&maxresults=1&"@ + self.spec_sas(),
    {
        let mut out = self.base_url();
        append_str(&mut out, "?restype=container&comp=list&maxresults=1&");
        append_str(&mut out, self.sas_token.as_str());
        string_of(out.as_slice())
    }

    /// The request that lists the blobs under a path.
    pub fn list_url(&self, path: &str) -> (r: String)
        ensures
            r@ == self.spec_base_url() + "?restype=container&comp=list&prefix="@ + self.spec_key(path@) + "&"@ + self.spec_sas(),
    {
        let mut out = self.base_url();
        append_str(&mut out, "?restype=container&comp=list&prefix=");
        append_vec(&mut out, &self.key(path));
        append_str(&mut out, "&");
        append_str(&mut out, self.sas_token.as_str());
        string_of(out.as_slice())
    }

    fn entry_of(&self, name: &Vec<char>, size: &Vec<char>) -> (r: FileEntry)
        ensures
            (r.path@, r.is_dir, r.size) == azure_entry(name@, size@, self.spec_prefix()),
    {
        let p = chars_of(self.prefix.as_str());
        let stripped = if starts_with_vec(name, &p) { subvec(name, p.len(), name.len()) } else { crate::text::copy_vec(name) };
        assert(stripped@ == strip_prefix_or_self(name@, p@));
        let slash = chars_of("/");
        let path = trim_start_matches_vec(&stripped, &slash);
        let is_dir = ends_with_vec(&path, &slash);
        let size_n: u64 = match parse_u64(size) {
            Some(n) => n,
            None => 0,
        };
        FileEntry { path: string_of(path.as_slice()), is_dir, size: size_n }
    }

    /// Reads a blob list reply: the blobs under the connector's prefix, or the
    /// reading error.
    pub fn list_entries(&self, body: &str) -> (r: Result<Vec<FileEntry>, WikiGenError>)
        ensures
            match azure_listing(xml_events(body@), self.spec_prefix()) {
                Ok(es) => r matches Ok(v) && entry_views(v@) == es,
                Err(m) => r matches Err(WikiGenError::Storage(x)) && x@ == "Azure XML parse error: "@ + m,
            },
    {
        let evs = read_xml_events(body);
        self.scan_events(&evs)
    }

    /// Reads the events of a blob list reply (see [`Self::list_entries`]).
    pub fn scan_events(&self, evs: &Vec<XmlEvent>) -> (r: Result<Vec<FileEntry>, WikiGenError>)
        ensures
            match azure_listing(event_views(evs@), self.spec_prefix()) {
                Ok(es) => r matches Ok(v) && entry_views(v@) == es,
                Err(m) => r matches Err(WikiGenError::Storage(x)) && x@ == "Azure XML parse error: "@ + m,
            },
    {
        let ghost ev = event_views(evs@);
        let name_t = name_tag_exec();
        let len_t = length_tag_exec();
        let mut in_name = false;
        let mut in_size = false;
        let mut name: Vec<char> = Vec::new();
        let mut size: Vec<char> = Vec::new();
        let mut entries: Vec<FileEntry> = Vec::new();
        let mut k: usize = 0;
        assert(entry_views(entries@) =~= Seq::<EntryView>::empty());
        assert(name@ =~= Seq::<char>::empty());
        assert(size@ =~= Seq::<char>::empty());
        while k < evs.len()
            invariant
                k <= evs@.len(),
                ev == event_views(evs@),
                name_t@ == name_tag(),
                len_t@ == length_tag(),
                azure_scan(ev, self.spec_prefix(), k as int) == Ok::<AzureScan, Seq<char>>(AzureScan {
                    in_name,
                    in_size,
                    name: name@,
                    size: size@,
                    entries: entry_views(entries@),
                }),
            decreases evs@.len() - k,
        {
            assert(ev[k as int] == evs@[k as int]@);
            match &evs[k] {
                XmlEvent::Start(n) => {
                    if bytes_eq(n, &name_t) {
                        in_name = true;
                        name = Vec::new();
                    } else if bytes_eq(n, &len_t) {
                        in_size = true;
                        size = Vec::new();
                    }
                },
                XmlEvent::Text(Some(t)) => {
                    if in_name {
                        append_str(&mut name, t.as_str());
                    } else if in_size {
                        append_str(&mut size, t.as_str());
                    }
                },
                XmlEvent::Text(None) => {},
                XmlEvent::End(n) => {
                    if bytes_eq(n, &name_t) && in_name {
                        in_name = false;
                        let e = self.entry_of(&name, &size);
                        if chars_of(e.path.as_str()).len() > 0 {
                            let ghost before = entry_views(entries@);
                            let ghost evw = (e.path@, e.is_dir, e.size);
                            entries.push(e);
                            assert(entry_views(entries@) =~= before.push(evw));
                        }
                        size = Vec::new();
                    } else if bytes_eq(n, &len_t) {
                        in_size = false;
                    }
                },
                XmlEvent::Error(m) => {
                    let mut msg = chars_of("Azure XML parse error: ");
                    append_str(&mut msg, m.as_str());
                    proof { lemma_azure_scan_error(ev, self.spec_prefix(), k as int + 1); }
                    return Err(WikiGenError::Storage(string_of(msg.as_slice())));
                },
                XmlEvent::Other => {},
            }
            k = k + 1;
        }
        Ok(entries)
    }
}

/// Once the reading stops on an error, it stays stopped on it.
proof fn lemma_azure_scan_error(evs: Seq<XmlEventView>, prefix: Seq<char>, k: int)
    requires
        0 < k <= evs.len(),
        azure_scan(evs, prefix, k) is Err,
    ensures
        azure_scan(evs, prefix, evs.len() as int) == azure_scan(evs, prefix, k),
    decreases evs.len() - k,
{
    if k < evs.len() {
        lemma_azure_scan_error(evs, prefix, k + 1);
    }
}

// ---------------------------------------------------------------------------
// JSON replies
// ---------------------------------------------------------------------------

/// `value[key]`: the member of an object, `null` otherwise.
pub open spec fn member(v: JsonValue, key: Seq<char>) -> JsonValue {
    match v.spec_get(key) {
        Some(x) => x,
        None => JsonValue::Null,
    }
}

/// `value.as_str().unwrap_or(d)`.
pub open spec fn text_or(v: JsonValue, d: Seq<char>) -> Seq<char> {
    match v {
        JsonValue::Str(s) => s@,
        _ => d,
    }
}

/// `value.as_u64()`: a number written with digits only whose value fits.
pub open spec fn json_u64(v: JsonValue) -> Option<u64> {
    match v {
        JsonValue::Number(t) => if t@.len() > 0 && all_digits(t@) && digits_value(t@) <= u64::MAX {
            Some(digits_value(t@) as u64)
        } else {
            None
        },
        _ => None,
    }
}

/// `value.as_array()`, or no items.
pub open spec fn items_of(v: JsonValue) -> Seq<JsonValue> {
    match v {
        JsonValue::Array(items) => items@,
        _ => Seq::empty(),
    }
}

pub(crate) fn member_exec<'a>(v: &'a JsonValue, key: &str) -> (r: Option<&'a JsonValue>)
    ensures
        match v.spec_get(key@) {
            Some(x) => r matches Some(y) && *y == x,
            None => r is None,
        },
{
    v.get(key)
}

pub(crate) fn text_or_exec(v: Option<&JsonValue>, d: &str) -> (r: String)
    ensures
        r@ == text_or(match v {
            Some(x) => *x,
            None => JsonValue::Null,
        }, d@),
{
    match v {
        Some(JsonValue::Str(s)) => s.clone(),
        _ => d.to_string(),
    }
}

pub(crate) fn json_u64_exec(v: Option<&JsonValue>) -> (r: Option<u64>)
    ensures
        r == json_u64(match v {
            Some(x) => *x,
            None => JsonValue::Null,
        }),
{
    match v {
        Some(JsonValue::Number(t)) => {
            let c = chars_of(t.as_str());
            if c.len() > 0 && c[0] == '+' {
                assert(!is_digit(c@[0]));
                return None;
            }
            let r = parse_u64(&c);
            assert(unsigned_part(c@) == c@);
            r
        },
        _ => None,
    }
}

pub(crate) fn items_exec(v: Option<&JsonValue>) -> (r: &[JsonValue])
    ensures
        r@ == items_of(match v {
            Some(x) => *x,
            None => JsonValue::Null,
        }),
{
    match v {
        Some(JsonValue::Array(items)) => items.as_slice(),
        _ => &[],
    }
}

/// `trim_matches('/')`.
pub open spec fn trim_slashes(p: Seq<char>) -> Seq<char> {
    crate::text::trim_end_matches(trim_start_matches(p, "/"@), "/"@)
}

pub(crate) fn trim_slashes_exec(p: &str) -> (r: Vec<char>)
    ensures
        r@ == trim_slashes(p@),
{
    let slash = chars_of("/");
    let a = trim_start_matches_vec(&chars_of(p), &slash);
    crate::text::trim_end_matches_vec(&a, &slash)
}

/// An empty path or `/`: the top of a drive.
pub open spec fn is_top(path: Seq<char>) -> bool {
    path.len() == 0 || path == "/"@
}

pub(crate) fn is_top_exec(path: &str) -> (r: bool)
    ensures
        r == is_top(path@),
{
    let c = chars_of(path);
    let r = c.len() == 0 || (c.len() == 1 && c[0] == '/');
    proof {
        reveal_strlit("/");
        if c.len() == 1 && c[0] == '/' {
            assert(c@ =~= "/"@);
        }
    }
    r
}

/// A byte that URL encoding keeps as it is: an ASCII letter or digit, `-`,
/// `.`, `_` or `~`.
pub open spec fn url_unreserved(b: u8) -> bool {
    (48 <= b <= 57) || (65 <= b <= 90) || (97 <= b <= 122) || b == 45 || b == 46 || b == 95 || b == 126
}

/// The upper-case hexadecimal digit of a value below 16.
pub open spec fn hex_upper(d: int) -> char {
    if d < 10 {
        crate::text::digit_char(d)
    } else if d == 10 {
        'A'
    } else if d == 11 {
        'B'
    } else if d == 12 {
        'C'
    } else if d == 13 {
        'D'
    } else if d == 14 {
        'E'
    } else {
        'F'
    }
}

/// One byte, URL encoded: itself when unreserved, else `%` and its two
/// upper-case hexadecimal digits.
pub open spec fn url_byte(b: u8) -> Seq<char> {
    if url_unreserved(b) {
        seq![b as char]
    } else {
        seq!['%', hex_upper((b / 16) as int), hex_upper((b % 16) as int)]
    }
}

pub open spec fn url_bytes(bs: Seq<u8>) -> Seq<char>
    decreases bs.len(),
{
    if bs.len() == 0 {
        Seq::empty()
    } else {
        url_bytes(bs.drop_last()) + url_byte(bs.last())
    }
}

/// The text `urlencoding::encode` makes of a string: each byte of its UTF-8
/// encoding, URL encoded.
pub open spec fn url_encoded(s: Seq<char>) -> Seq<char> {
    url_bytes(vstd::utf8::encode_utf8(s))
}

/// `urlencoding::encode(s).into_owned()`: percent-encodes each UTF-8 byte of
/// the text except ASCII letters and digits and `-`, `_`, `.`, `~`, with
/// upper-case hexadecimal digits.
#[verifier::external_body]
pub(crate) fn url_encode(s: &str) -> (r: String)
    ensures
        r@ == url_encoded(s@),
{
    urlencoding::encode(s).into_owned()
}

// ---------------------------------------------------------------------------
// Dropbox
// ---------------------------------------------------------------------------

/// A Dropbox account, through its API.
pub struct DropboxConnector {
    access_token: String,
}

/// The folder a Dropbox listing names: empty for the top, else the path
/// without surrounding slashes behind one `/`.
pub open spec fn dropbox_folder(path: Seq<char>) -> Seq<char> {
    if is_top(path) { Seq::empty() } else { "/"@ + trim_slashes(path) }
}

/// The entry of one item of a Dropbox listing.
pub open spec fn dropbox_entry(item: JsonValue) -> EntryView {
    let name = text_or(member(item, "name"@), Seq::empty());
    (
        trim_start_matches(text_or(member(item, "path_display"@), name), "/"@),
        text_or(member(item, ".tag"@), Seq::empty()) == "folder"@,
        match json_u64(member(item, "size"@)) {
            Some(n) => n,
            None => 0,
        },
    )
}

pub open spec fn dropbox_entries(data: JsonValue) -> Seq<EntryView> {
    let items = items_of(member(data, "entries"@));
    Seq::new(items.len(), |i: int| dropbox_entry(items[i]))
}

pub(crate) fn eq_str(a: &str, b: &str) -> (r: bool)
    ensures
        r == (a@ == b@),
{
    crate::text::eq_vec(&chars_of(a), &chars_of(b))
}

impl DropboxConnector {
    pub closed spec fn spec_token(&self) -> Seq<char> {
        self.access_token@
    }

    pub fn new(access_token: String) -> (r: Self)
        ensures
            r.spec_token() == access_token@,
    {
        DropboxConnector { access_token }
    }

    pub fn access_token(&self) -> (r: &str)
        ensures
            r@ == self.spec_token(),
    {
        self.access_token.as_str()
    }

    pub fn name(&self) -> (r: &'static str)
        ensures
            r@ == "dropbox"@,
    {
        "dropbox"
    }

    /// The folder a listing request names.
    pub fn folder_path(&self, path: &str) -> (r: String)
        ensures
            r@ == dropbox_folder(path@),
    {
        if is_top_exec(path) {
            String::new()
        } else {
            let mut out = chars_of("/");
            append_vec(&mut out, &trim_slashes_exec(path));
            string_of(out.as_slice())
        }
    }

    /// The file a download, existence or metadata request names.
    pub fn file_path(&self, path: &str) -> (r: String)
        ensures
            r@ == "/"@ + trim_slashes(path@),
    {
        let mut out = chars_of("/");
        append_vec(&mut out, &trim_slashes_exec(path));
        string_of(out.as_slice())
    }

    fn entry(item: &JsonValue) -> (r: FileEntry)
        ensures
            (r.path@, r.is_dir, r.size) == dropbox_entry(*item),
    {
        let name = text_or_exec(member_exec(item, "name"), "");
        let shown = text_or_exec(member_exec(item, "path_display"), name.as_str());
        let path = trim_start_matches_vec(&chars_of(shown.as_str()), &chars_of("/"));
        let tag = text_or_exec(member_exec(item, ".tag"), "");
        let size = match json_u64_exec(member_exec(item, "size")) {
            Some(n) => n,
            None => 0,
        };
        proof { reveal_strlit(""); assert(""@ =~= Seq::<char>::empty()); }
        FileEntry { path: string_of(path.as_slice()), is_dir: eq_str(tag.as_str(), "folder"), size }
    }

    /// The entries of a listing reply.
    pub fn list_entries(&self, data: &JsonValue) -> (r: Vec<FileEntry>)
        ensures
            entry_views(r@) == dropbox_entries(*data),
    {
        let items = items_exec(member_exec(data, "entries"));
        let mut out: Vec<FileEntry> = Vec::new();
        let mut k: usize = 0;
        while k < items.len()
            invariant
                k <= items@.len(),
                items@ == items_of(member(*data, "entries"@)),
                entry_views(out@) == Seq::new(k as nat, |i: int| dropbox_entry(items@[i])),
            decreases items@.len() - k,
        {
            let e = DropboxConnector::entry(&items[k]);
            let ghost before = entry_views(out@);
            let ghost evw = (e.path@, e.is_dir, e.size);
            out.push(e);
            assert(entry_views(out@) =~= before.push(evw));
            assert(entry_views(out@) =~= Seq::new((k + 1) as nat, |i: int| dropbox_entry(items@[i])));
            k = k + 1;
        }
        out
    }

    /// The metadata in a metadata reply.
    pub fn metadata_of(&self, data: &JsonValue) -> (r: FileMetadata)
        ensures
            r.size == (match json_u64(member(*data, "size"@)) {
                Some(n) => n,
                None => 0,
            }),
            r.is_dir == (text_or(member(*data, ".tag"@), Seq::empty()) == "folder"@),
            r.modified is None,
    {
        let tag = text_or_exec(member_exec(data, ".tag"), "");
        proof { reveal_strlit(""); assert(""@ =~= Seq::<char>::empty()); }
        FileMetadata {
            size: match json_u64_exec(member_exec(data, "size")) {
                Some(n) => n,
                None => 0,
            },
            modified: None,
            is_dir: eq_str(tag.as_str(), "folder"),
        }
    }
}

// ---------------------------------------------------------------------------
// OneDrive
// ---------------------------------------------------------------------------

/// A OneDrive drive, through Microsoft Graph.
pub struct OneDriveConnector {
    access_token: String,
    drive_id: Option<String>,
}

/// The entry of one item of a OneDrive listing under `path`.
pub open spec fn onedrive_entry(item: JsonValue, path: Seq<char>) -> EntryView {
    let name = text_or(member(item, "name"@), Seq::empty());
    (
        if is_top(path) { name } else { trim_slashes(path) + "/"@ + name },
        item.spec_get("folder"@) is Some,
        match json_u64(member(item, "size"@)) {
            Some(n) => n,
            None => 0,
        },
    )
}

pub open spec fn onedrive_entries(body: JsonValue, path: Seq<char>) -> Seq<EntryView> {
    let items = items_of(member(body, "value"@));
    Seq::new(items.len(), |i: int| onedrive_entry(items[i], path))
}

impl OneDriveConnector {
    pub closed spec fn spec_token(&self) -> Seq<char> {
        self.access_token@
    }

    pub closed spec fn spec_drive(&self) -> Option<Seq<char>> {
        match self.drive_id {
            Some(d) => Some(d@),
            None => None,
        }
    }

    /// The address of the drive.
    pub open spec fn spec_api_base(&self) -> Seq<char> {
        match self.spec_drive() {
            Some(id) => "https://graph.microsoft.com/v1.0/drives/"@ + id,
            None => "https://graph.microsoft.com/v1.0/me/drive"@,
        }
    }

    pub fn new(access_token: String) -> (r: Self)
        ensures
            r.spec_token() == access_token@,
            r.spec_drive() is None,
    {
        OneDriveConnector { access_token, drive_id: None }
    }

    pub fn with_drive_id(self, drive_id: String) -> (r: Self)
        ensures
            r.spec_token() == self.spec_token(),
            r.spec_drive() == Some(drive_id@),
    {
        OneDriveConnector { drive_id: Some(drive_id), ..self }
    }

    pub fn access_token(&self) -> (r: &str)
        ensures
            r@ == self.spec_token(),
    {
        self.access_token.as_str()
    }

    pub fn name(&self) -> (r: &'static str)
        ensures
            r@ == "onedrive"@,
    {
        "onedrive"
    }

    pub fn api_base(&self) -> (r: String)
        ensures
            r@ == self.spec_api_base(),
    {
        match &self.drive_id {
            Some(id) => {
                let mut out = chars_of("https://graph.microsoft.com/v1.0/drives/");
                append_str(&mut out, id.as_str());
                string_of(out.as_slice())
            },
            None => "https://graph.microsoft.com/v1.0/me/drive".to_string(),
        }
    }

    /// The request that lists a folder.
    pub fn list_url(&self, path: &str) -> (r: String)
        ensures
            r@ == (if is_top(path@) {
                self.spec_api_base() + "/root/children"@
            } else {
                self.spec_api_base() + "/root:/"@ + trim_slashes(path@) + ":/children"@
            }),
    {
        let mut out = chars_of(self.api_base().as_str());
        if is_top_exec(path) {
            append_str(&mut out, "/root/children");
        } else {
            append_str(&mut out, "/root:/");
            append_vec(&mut out, &trim_slashes_exec(path));
            append_str(&mut out, ":/children");
        }
        string_of(out.as_slice())
    }

    /// The request that reads an item's metadata (or, with `/content`, its bytes).
    pub fn item_url(&self, path: &str) -> (r: String)
        ensures
            r@ == self.spec_api_base() + "/root:/"@ + trim_slashes(path@),
    {
        let mut out = chars_of(self.api_base().as_str());
        append_str(&mut out, "/root:/");
        append_vec(&mut out, &trim_slashes_exec(path));
        string_of(out.as_slice())
    }

    /// The entries of a listing reply for `path`.
    pub fn list_entries(&self, path: &str, body: &JsonValue) -> (r: Vec<FileEntry>)
        ensures
            entry_views(r@) == onedrive_entries(*body, path@),
    {
        let items = items_exec(member_exec(body, "value"));
        let top = is_top_exec(path);
        let dir = trim_slashes_exec(path);
        let mut out: Vec<FileEntry> = Vec::new();
        let mut k: usize = 0;
        while k < items.len()
            invariant
                k <= items@.len(),
                items@ == items_of(member(*body, "value"@)),
                top == is_top(path@),
                dir@ == trim_slashes(path@),
                entry_views(out@) == Seq::new(k as nat, |i: int| onedrive_entry(items@[i], path@)),
            decreases items@.len() - k,
        {
            let item = &items[k];
            let name = text_or_exec(member_exec(item, "name"), "");
            let p = if top {
                name
            } else {
                let mut q = crate::text::copy_vec(&dir);
                append_str(&mut q, "/");
                append_str(&mut q, name.as_str());
                string_of(q.as_slice())
            };
            let size = match json_u64_exec(member_exec(item, "size")) {
                Some(n) => n,
                None => 0,
            };
            let is_dir = member_exec(item, "folder").is_some();
            proof { reveal_strlit(""); assert(""@ =~= Seq::<char>::empty()); }
            let e = FileEntry { path: p, is_dir, size };
            let ghost before = entry_views(out@);
            let ghost evw = (e.path@, e.is_dir, e.size);
            out.push(e);
            assert(entry_views(out@) =~= before.push(evw));
            assert(entry_views(out@) =~= Seq::new((k + 1) as nat, |i: int| onedrive_entry(items@[i], path@)));
            k = k + 1;
        }
        out
    }

    /// The metadata in a metadata reply.
    pub fn metadata_of(&self, body: &JsonValue) -> (r: FileMetadata)
        ensures
            r.size == (match json_u64(member(*body, "size"@)) {
                Some(n) => n,
                None => 0,
            }),
            r.is_dir == (body.spec_get("folder"@) is Some),
            r.modified is None,
    {
        FileMetadata {
            size: match json_u64_exec(member_exec(body, "size")) {
                Some(n) => n,
                None => 0,
            },
            modified: None,
            is_dir: member_exec(body, "folder").is_some(),
        }
    }
}

// ---------------------------------------------------------------------------
// Google Drive
// ---------------------------------------------------------------------------

/// A Google Drive, through its API; paths are folder or file ids.
pub struct GoogleDriveConnector {
    access_token: String,
    root_folder_id: String,
}

/// A size written as text: its number when it parses, else 0.
pub open spec fn text_size(v: JsonValue) -> u64 {
    match v {
        JsonValue::Str(s) => match parse_u64_spec(s@) {
            Some(n) => n,
            None => 0,
        },
        _ => 0,
    }
}

pub(crate) fn text_size_exec(v: Option<&JsonValue>) -> (r: u64)
    ensures
        r == text_size(match v {
            Some(x) => *x,
            None => JsonValue::Null,
        }),
{
    match v {
        Some(JsonValue::Str(s)) => match parse_u64(&chars_of(s.as_str())) {
            Some(n) => n,
            None => 0,
        },
        _ => 0,
    }
}

pub open spec fn gdrive_folder_mime() -> Seq<char> {
    "application/vnd.google-apps.folder"@
}

pub open spec fn gdrive_entry(file: JsonValue) -> EntryView {
    (
        text_or(member(file, "name"@), Seq::empty()),
        text_or(member(file, "mimeType"@), Seq::empty()) == gdrive_folder_mime(),
        text_size(member(file, "size"@)),
    )
}

pub open spec fn gdrive_entries(body: JsonValue) -> Seq<EntryView> {
    let files = items_of(member(body, "files"@));
    Seq::new(files.len(), |i: int| gdrive_entry(files[i]))
}

impl GoogleDriveConnector {
    pub closed spec fn spec_token(&self) -> Seq<char> {
        self.access_token@
    }

    pub closed spec fn spec_root(&self) -> Seq<char> {
        self.root_folder_id@
    }

    pub fn new(access_token: String) -> (r: Self)
        ensures
            r.spec_token() == access_token@,
            r.spec_root() == "root"@,
    {
        GoogleDriveConnector { access_token, root_folder_id: "root".to_string() }
    }

    pub fn with_folder_id(self, folder_id: String) -> (r: Self)
        ensures
            r.spec_token() == self.spec_token(),
            r.spec_root() == folder_id@,
    {
        GoogleDriveConnector { root_folder_id: folder_id, ..self }
    }

    pub fn access_token(&self) -> (r: &str)
        ensures
            r@ == self.spec_token(),
    {
        self.access_token.as_str()
    }

    pub fn name(&self) -> (r: &'static str)
        ensures
            r@ == "google_drive"@,
    {
        "google_drive"
    }

    /// The search a listing makes: the folder's children that are not trashed
    /// (the top of the drive is the connector's root folder).
    pub fn list_query(&self, path: &str) -> (r: String)
        ensures
            r@ == "'"@ + (if is_top(path@) { self.spec_root() } else { path@ }) + "' in parents and trashed = false"@,
    {
        let mut out = chars_of("'");
        if is_top_exec(path) {
            append_str(&mut out, self.root_folder_id.as_str());
        } else {
            append_str(&mut out, path);
        }
        append_str(&mut out, "' in parents and trashed = false");
        string_of(out.as_slice())
    }

    /// The request a listing sends: the search of [`Self::list_query`], encoded.
    pub fn list_url(&self, path: &str) -> (r: String)
        ensures
            r@ == "https://www.googleapis.com/drive/v3/files?q="@ + url_encoded(
                "'"@ + (if is_top(path@) { self.spec_root() } else { path@ }) + "' in parents and trashed = false"@,
            ) + "&fields=files(id,name,mimeType,size)"@,
    {
        let q = self.list_query(path);
        let mut out = chars_of("https://www.googleapis.com/drive/v3/files?q=");
        append_str(&mut out, url_encode(q.as_str()).as_str());
        append_str(&mut out, "&fields=files(id,name,mimeType,size)");
        string_of(out.as_slice())
    }

    /// The entries of a listing reply.
    pub fn list_entries(&self, body: &JsonValue) -> (r: Vec<FileEntry>)
        ensures
            entry_views(r@) == gdrive_entries(*body),
    {
        let files = items_exec(member_exec(body, "files"));
        let mut out: Vec<FileEntry> = Vec::new();
        let mut k: usize = 0;
        while k < files.len()
            invariant
                k <= files@.len(),
                files@ == items_of(member(*body, "files"@)),
                entry_views(out@) == Seq::new(k as nat, |i: int| gdrive_entry(files@[i])),
            decreases files@.len() - k,
        {
            let f = &files[k];
            let name = text_or_exec(member_exec(f, "name"), "");
            let mime = text_or_exec(member_exec(f, "mimeType"), "");
            let size = text_size_exec(member_exec(f, "size"));
            proof { reveal_strlit(""); assert(""@ =~= Seq::<char>::empty()); }
            let e = FileEntry { path: name, is_dir: eq_str(mime.as_str(), "application/vnd.google-apps.folder"), size };
            let ghost before = entry_views(out@);
            let ghost evw = (e.path@, e.is_dir, e.size);
            out.push(e);
            assert(entry_views(out@) =~= before.push(evw));
            assert(entry_views(out@) =~= Seq::new((k + 1) as nat, |i: int| gdrive_entry(files@[i])));
            k = k + 1;
        }
        out
    }

    /// The metadata in a metadata reply.
    pub fn metadata_of(&self, body: &JsonValue) -> (r: FileMetadata)
        ensures
            r.size == text_size(member(*body, "size"@)),
            r.is_dir == (text_or(member(*body, "mimeType"@), Seq::empty()) == gdrive_folder_mime()),
            r.modified is None,
    {
        let mime = text_or_exec(member_exec(body, "mimeType"), "");
        proof { reveal_strlit(""); assert(""@ =~= Seq::<char>::empty()); }
        FileMetadata {
            size: text_size_exec(member_exec(body, "size")),
            modified: None,
            is_dir: eq_str(mime.as_str(), "application/vnd.google-apps.folder"),
        }
    }
}

// ---------------------------------------------------------------------------
// Aliyun Drive
// ---------------------------------------------------------------------------

/// An Aliyun Drive, through its open API; paths are file ids.
pub struct AliyunDriveConnector {
    access_token: String,
    drive_id: String,
    root_file_id: String,
}

pub open spec fn aliyun_entry(item: JsonValue) -> EntryView {
    (
        text_or(member(item, "name"@), Seq::empty()),
        text_or(member(item, "type"@), Seq::empty()) == "folder"@,
        match json_u64(member(item, "size"@)) {
            Some(n) => n,
            None => 0,
        },
    )
}

pub open spec fn aliyun_entries(data: JsonValue) -> Seq<EntryView> {
    let items = items_of(member(data, "items"@));
    Seq::new(items.len(), |i: int| aliyun_entry(items[i]))
}

impl AliyunDriveConnector {
    pub closed spec fn spec_token(&self) -> Seq<char> {
        self.access_token@
    }

    pub closed spec fn spec_drive(&self) -> Seq<char> {
        self.drive_id@
    }

    pub closed spec fn spec_root(&self) -> Seq<char> {
        self.root_file_id@
    }

    pub fn new(access_token: String, drive_id: String) -> (r: Self)
        ensures
            r.spec_token() == access_token@,
            r.spec_drive() == drive_id@,
            r.spec_root() == "root"@,
    {
        AliyunDriveConnector { access_token, drive_id, root_file_id: "root".to_string() }
    }

    pub fn with_root_folder(self, file_id: String) -> (r: Self)
        ensures
            r.spec_token() == self.spec_token(),
            r.spec_drive() == self.spec_drive(),
            r.spec_root() == file_id@,
    {
        AliyunDriveConnector { root_file_id: file_id, ..self }
    }

    pub fn access_token(&self) -> (r: &str)
        ensures
            r@ == self.spec_token(),
    {
        self.access_token.as_str()
    }

    pub fn drive_id(&self) -> (r: &str)
        ensures
            r@ == self.spec_drive(),
    {
        self.drive_id.as_str()
    }

    pub fn name(&self) -> (r: &'static str)
        ensures
            r@ == "aliyun_drive"@,
    {
        "aliyun_drive"
    }

    /// The folder a listing reads: the root folder for the top, else the path as an id.
    pub fn parent_file_id(&self, path: &str) -> (r: String)
        ensures
            r@ == (if is_top(path@) { self.spec_root() } else { path@ }),
    {
        if is_top_exec(path) {
            self.root_file_id.clone()
        } else {
            path.to_string()
        }
    }

    /// The entries of a listing reply.
    pub fn list_entries(&self, data: &JsonValue) -> (r: Vec<FileEntry>)
        ensures
            entry_views(r@) == aliyun_entries(*data),
    {
        let items = items_exec(member_exec(data, "items"));
        let mut out: Vec<FileEntry> = Vec::new();
        let mut k: usize = 0;
        while k < items.len()
            invariant
                k <= items@.len(),
                items@ == items_of(member(*data, "items"@)),
                entry_views(out@) == Seq::new(k as nat, |i: int| aliyun_entry(items@[i])),
            decreases items@.len() - k,
        {
            let item = &items[k];
            let name = text_or_exec(member_exec(item, "name"), "");
            let t = text_or_exec(member_exec(item, "type"), "");
            let size = match json_u64_exec(member_exec(item, "size")) {
                Some(n) => n,
                None => 0,
            };
            proof { reveal_strlit(""); assert(""@ =~= Seq::<char>::empty()); }
            let e = FileEntry { path: name, is_dir: eq_str(t.as_str(), "folder"), size };
            let ghost before = entry_views(out@);
            let ghost evw = (e.path@, e.is_dir, e.size);
            out.push(e);
            assert(entry_views(out@) =~= before.push(evw));
            assert(entry_views(out@) =~= Seq::new((k + 1) as nat, |i: int| aliyun_entry(items@[i])));
            k = k + 1;
        }
        out
    }

    /// The download address in a download-link reply.
    pub fn download_url_of(&self, data: &JsonValue) -> (r: Result<String, WikiGenError>)
        ensures
            match member(*data, "url"@) {
                JsonValue::Str(u) => r matches Ok(s) && s@ == u@,
                _ => r matches Err(WikiGenError::Storage(m)) && m@ == "No download URL"@,
            },
    {
        match member_exec(data, "url") {
            Some(JsonValue::Str(u)) => Ok(u.clone()),
            _ => Err(WikiGenError::Storage("No download URL".to_string())),
        }
    }

    /// The metadata in a metadata reply.
    pub fn metadata_of(&self, data: &JsonValue) -> (r: FileMetadata)
        ensures
            r.size == (match json_u64(member(*data, "size"@)) {
                Some(n) => n,
                None => 0,
            }),
            r.is_dir == (text_or(member(*data, "type"@), Seq::empty()) == "folder"@),
            r.modified is None,
    {
        let t = text_or_exec(member_exec(data, "type"), "");
        proof { reveal_strlit(""); assert(""@ =~= Seq::<char>::empty()); }
        FileMetadata {
            size: match json_u64_exec(member_exec(data, "size")) {
                Some(n) => n,
                None => 0,
            },
            modified: None,
            is_dir: eq_str(t.as_str(), "folder"),
        }
    }
}

} // verus!
