//! Dependencies of a Maven `pom.xml`, read line by line.

use vstd::prelude::*;

use crate::error::{WikiGenError, WikiGenResult};
use crate::ir::{DependencyScope, Ecosystem, ManifestInfo};
use crate::lang::ManifestType;
use crate::manifest::{dep_views, lemma_dep_views_push, make_dependency, DependencyView, ManifestView};
use crate::text::{
    append_str, append_vec, chars_of, eq_vec, find, find_vec, lemma_find_from_bounds, lines,
    lines_vec, matches_at, string_of, subvec, trim, trim_vec, utf8_str_or_message, views,
};

verus! {

pub struct MavenExtractor;

/// The text between `<tag>` and `</tag>` on one line, when both occur and the value is not empty.
pub open spec fn spec_xml_value(line: Seq<char>, tag: Seq<char>) -> Option<Seq<char>> {
    let open = seq!['<'] + tag + seq!['>'];
    let close = seq!['<', '/'] + tag + seq!['>'];
    match find(line, open) {
        Some(start) => match find(line, close) {
            Some(end) => if start + open.len() < end {
                Some(line.subrange(start + open.len(), end))
            } else {
                None
            },
            None => None,
        },
        None => None,
    }
}

/// The scanner's state: inside `<dependencies>`, inside `<dependency>`,
/// the group, artifact, version and scope read so far, and the dependencies found.
pub struct PomState {
    pub in_dependencies: bool,
    pub in_dependency: bool,
    pub group: Seq<char>,
    pub artifact: Seq<char>,
    pub version: Seq<char>,
    pub scope: Seq<char>,
    pub deps: Seq<DependencyView>,
}

pub open spec fn pom_dep_name(group: Seq<char>, artifact: Seq<char>) -> Seq<char> {
    if group.len() == 0 { artifact } else { group + seq![':'] + artifact }
}

pub open spec fn pom_scope(scope: Seq<char>) -> DependencyScope {
    if scope == "test"@ { DependencyScope::Dev } else { DependencyScope::Runtime }
}

pub open spec fn pom_step(st: PomState, line: Seq<char>, file: Seq<char>) -> PomState {
    let t = trim(line);
    if t == "<dependencies>"@ {
        PomState { in_dependencies: true, ..st }
    } else if t == "</dependencies>"@ {
        PomState { in_dependencies: false, ..st }
    } else if st.in_dependencies && t == "<dependency>"@ {
        PomState { in_dependency: true, group: Seq::empty(), artifact: Seq::empty(), version: Seq::empty(), scope: Seq::empty(), ..st }
    } else if st.in_dependency && t == "</dependency>"@ {
        let name = pom_dep_name(st.group, st.artifact);
        let deps = if name.len() > 0 {
            st.deps.push(DependencyView {
                name,
                version_req: if st.version.len() == 0 { None } else { Some(st.version) },
                scope: pom_scope(st.scope),
                source_file: file,
                ecosystem: Ecosystem::Maven,
            })
        } else {
            st.deps
        };
        PomState { in_dependency: false, deps, ..st }
    } else if st.in_dependency {
        match spec_xml_value(t, "groupId"@) {
            Some(v) => PomState { group: v, ..st },
            None => match spec_xml_value(t, "artifactId"@) {
                Some(v) => PomState { artifact: v, ..st },
                None => match spec_xml_value(t, "version"@) {
                    Some(v) => PomState { version: v, ..st },
                    None => match spec_xml_value(t, "scope"@) {
                        Some(v) => PomState { scope: v, ..st },
                        None => st,
                    },
                },
            },
        }
    } else {
        st
    }
}

pub open spec fn pom_scan(ls: Seq<Seq<char>>, n: int, file: Seq<char>) -> PomState
    decreases n,
{
    if n <= 0 {
        PomState {
            in_dependencies: false,
            in_dependency: false,
            group: Seq::empty(),
            artifact: Seq::empty(),
            version: Seq::empty(),
            scope: Seq::empty(),
            deps: Seq::empty(),
        }
    } else {
        pom_step(pom_scan(ls, n - 1, file), ls[n - 1], file)
    }
}

pub open spec fn pom_dependencies(text: Seq<char>, file: Seq<char>) -> Seq<DependencyView> {
    pom_scan(lines(text), lines(text).len() as int, file).deps
}

pub fn extract_xml_value(line: &Vec<char>, tag: &str) -> (r: Option<Vec<char>>)
    ensures
        match spec_xml_value(line@, tag@) {
            Some(v) => r matches Some(x) && x@ == v,
            None => r is None,
        },
{
    let t = chars_of(tag);
    let mut open = crate::text::single('<');
    append_vec(&mut open, &t);
    open.push('>');
    let mut close = crate::text::single('<');
    close.push('/');
    append_vec(&mut close, &t);
    close.push('>');
    assert(open@ =~= seq!['<'] + tag@ + seq!['>']);
    assert(close@ =~= seq!['<', '/'] + tag@ + seq!['>']);
    match find_vec(line, &open) {
        Some(start) => {
            proof { lemma_find_from_bounds(line@, open@, 0); }
            assert(matches_at(line@, open@, start as int));
            assert(start + open.len() <= line.len());
            match find_vec(line, &close) {
                Some(end) => {
                    proof { lemma_find_from_bounds(line@, close@, 0); }
                    assert(matches_at(line@, close@, end as int));
                    assert(end <= line.len());
                    let vs = start + open.len();
                    if vs < end {
                        Some(subvec(line, vs, end))
                    } else {
                        None
                    }
                },
                None => None,
            }
        },
        None => None,
    }
}

fn is(v: &Vec<char>, lit: &str) -> (r: bool)
    ensures
        r == (v@ == lit@),
{
    eq_vec(v, &chars_of(lit))
}

impl MavenExtractor {
    pub fn manifest_type(&self) -> (r: ManifestType)
        ensures
            r == ManifestType::PomXml,
    {
        ManifestType::PomXml
    }

    /// The dependencies declared inside `<dependencies>`, one per `<dependency>` block.
    pub fn extract(&self, content: &[u8], file_path: &str) -> (r: WikiGenResult<ManifestInfo>)
        ensures
            !vstd::utf8::valid_utf8(content@) ==> (r matches Err(WikiGenError::Parse { file, .. }) && file@ == file_path@),
            vstd::utf8::valid_utf8(content@) ==> (r matches Ok(m) && m@ == (ManifestView {
                ecosystem: Ecosystem::Maven,
                source_file: file_path@,
                dependencies: pom_dependencies(vstd::utf8::decode_utf8(content@), file_path@),
            })),
    {
        let text = match utf8_str_or_message(content) {
            Ok(t) => t,
            Err(msg) => {
                let mut m = chars_of("Invalid UTF-8 in pom.xml: ");
                append_str(&mut m, msg.as_str());
                return Err(WikiGenError::Parse { file: file_path.to_owned(), message: string_of(m.as_slice()) });
            },
        };
        let tv = chars_of(text);
        let ls = lines_vec(&tv);
        let ghost lsv = views(ls@);
        let mut in_dependencies = false;
        let mut in_dependency = false;
        let mut group: Vec<char> = Vec::new();
        let mut artifact: Vec<char> = Vec::new();
        let mut version: Vec<char> = Vec::new();
        let mut scope: Vec<char> = Vec::new();
        let mut deps: Vec<crate::ir::Dependency> = Vec::new();
        let mut i: usize = 0;
        while i < ls.len()
            invariant
                i <= ls@.len(),
                lsv == views(ls@),
                lsv == lines(text@),
                ({
                    let st = pom_scan(lsv, i as int, file_path@);
                    &&& st.in_dependencies == in_dependencies
                    &&& st.in_dependency == in_dependency
                    &&& st.group == group@
                    &&& st.artifact == artifact@
                    &&& st.version == version@
                    &&& st.scope == scope@
                    &&& st.deps == dep_views(deps@)
                }),
            decreases ls.len() - i,
        {
            let t = trim_vec(&ls[i]);
            assert(lsv[i as int] == ls@[i as int]@);
            if is(&t, "<dependencies>") {
                in_dependencies = true;
            } else if is(&t, "</dependencies>") {
                in_dependencies = false;
            } else if in_dependencies && is(&t, "<dependency>") {
                in_dependency = true;
                group = Vec::new();
                artifact = Vec::new();
                version = Vec::new();
                scope = Vec::new();
            } else if in_dependency && is(&t, "</dependency>") {
                in_dependency = false;
                let name = if group.len() == 0 {
                    crate::text::copy_vec(&artifact)
                } else {
                    let mut n = crate::text::copy_vec(&group);
                    n.push(':');
                    append_vec(&mut n, &artifact);
                    n
                };
                assert(name@ =~= pom_dep_name(group@, artifact@));
                let sc = if is(&scope, "test") { DependencyScope::Dev } else { DependencyScope::Runtime };
                if name.len() > 0 {
                    let vr = if version.len() == 0 { None } else { Some(string_of(version.as_slice())) };
                    let d = make_dependency(string_of(name.as_slice()), vr, sc, file_path, Ecosystem::Maven);
                    let ghost b = deps@;
                    deps.push(d);
                    proof { lemma_dep_views_push(b, d); }
                }
            } else if in_dependency {
                match extract_xml_value(&t, "groupId") {
                    Some(v) => { group = v; },
                    None => match extract_xml_value(&t, "artifactId") {
                        Some(v) => { artifact = v; },
                        None => match extract_xml_value(&t, "version") {
                            Some(v) => { version = v; },
                            None => match extract_xml_value(&t, "scope") {
                                Some(v) => { scope = v; },
                                None => {},
                            },
                        },
                    },
                }
            }
            i = i + 1;
        }
        Ok(ManifestInfo { ecosystem: Ecosystem::Maven, source_file: file_path.to_owned(), dependencies: deps })
    }
}


/// Closing a `<dependency>` element records the dependency it named, under
/// the Dev scope when its `<scope>` was `test` and the Runtime scope
/// otherwise, with the version read, if any.
pub proof fn law_pom_dependency_scope(st: PomState, line: Seq<char>, file: Seq<char>)
    requires
        st.in_dependency,
        trim(line) == "</dependency>"@,
        pom_dep_name(st.group, st.artifact).len() > 0,
    ensures
        pom_step(st, line, file).deps.len() == st.deps.len() + 1,
        pom_step(st, line, file).deps.last().scope == (if st.scope == "test"@ {
            DependencyScope::Dev
        } else {
            DependencyScope::Runtime
        }),
        pom_step(st, line, file).deps.last().name == pom_dep_name(st.group, st.artifact),
        pom_step(st, line, file).deps.last().version_req == (if st.version.len() == 0 { None } else { Some(st.version) }),
        !pom_step(st, line, file).in_dependency,
{
    reveal_strlit("</dependency>");
    reveal_strlit("<dependencies>");
    reveal_strlit("</dependencies>");
    reveal_strlit("<dependency>");
    assert("</dependency>"@.len() == 13);
    assert("<dependencies>"@.len() == 14);
    assert("</dependencies>"@.len() == 15);
    assert("<dependency>"@.len() == 12);
}

} // verus!
