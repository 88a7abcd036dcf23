use vstd::prelude::*;

use crate::candidates::{
    add_candidate, candidate_list, lower_of, opt_seq, push_char, to_lowercase, CandidateUrls,
};
use crate::discovery::{opt_str_view, strings_view};
use crate::json::{member, member_exec, Json};
use crate::text::{
    eq_ignore_ascii_case, chars_of, find, find_exec, index_of, index_of_exec, lines_of, lines_vec, trim, trim_str,
};

verus! {

/// `s` with each `_` replaced by `-`.
pub open spec fn dashes(s: Seq<char>) -> Seq<char> {
    s.map_values(|c: char| if c == '_' { '-' } else { c })
}

/// A package name in normal form: trimmed, `_` as `-`, lower case.
pub open spec fn normalize_name_spec(name: Seq<char>) -> Option<Seq<char>> {
    let t = trim(name);
    if t.len() == 0 {
        None
    } else {
        Some(lower_of(dashes(t)))
    }
}

/// A character that may stand in a requirement's package name.
pub open spec fn is_req_name_char(c: char) -> bool {
    ('a' <= c && c <= 'z') || ('A' <= c && c <= 'Z') || ('0' <= c && c <= '9') || c == '-' || c
        == '_' || c == '.'
}

/// The longest prefix of `s` made of package-name characters.
pub open spec fn leading_name(s: Seq<char>) -> Seq<char>
    decreases s.len(),
{
    if s.len() > 0 && is_req_name_char(s[0]) {
        seq![s[0]] + leading_name(s.drop_first())
    } else {
        seq![]
    }
}

/// The package a requirements line names: none for blank lines, comments and
/// options; the `#egg=` name of a URL; no name for other URLs; else the leading
/// package-name characters.
pub open spec fn normalize_requirement_spec(input: Seq<char>) -> Option<Seq<char>> {
    let t = trim(input);
    if t.len() == 0 || t[0] == '#' || t[0] == '-' {
        None
    } else {
        let w = match index_of(t, ';') {
            Some(k) => t.subrange(0, k),
            None => t,
        };
        match find(w, "#egg="@) {
            Some(k) => normalize_name_spec(w.subrange(k + "#egg="@.len(), w.len() as int)),
            None => if find(w, "://"@) is Some {
                None
            } else {
                let name = leading_name(w);
                if name.len() == 0 {
                    None
                } else {
                    normalize_name_spec(name)
                }
            },
        }
    }
}

#[verifier::spinoff_prover]
pub fn is_req_name_char_exec(c: char) -> (r: bool)
    ensures
        r == is_req_name_char(c),
{
    ('a' <= c && c <= 'z') || ('A' <= c && c <= 'Z') || ('0' <= c && c <= '9') || c == '-' || c
        == '_' || c == '.'
}

/// Normalises a package name: trimmed, `_` as `-`, lower case; none if blank.
#[verifier::spinoff_prover]
pub fn normalize_name(name: &str) -> (r: Option<String>)
    ensures
        opt_str_view(r) == normalize_name_spec(name@),
{
    let t = trim_str(name);
    if t.is_empty() {
        return None;
    }
    let c = chars_of(t);
    let mut out = String::new();
    let mut i: usize = 0;
    while i < c.len()
        invariant
            c@ == t@,
            i <= c@.len(),
            out@ == dashes(t@.subrange(0, i as int)),
        decreases c@.len() - i,
    {
        let ch = if c[i] == '_' {
            '-'
        } else {
            c[i]
        };
        push_char(&mut out, ch);
        assert(dashes(t@.subrange(0, i + 1)) =~= dashes(t@.subrange(0, i as int)).push(ch));
        i = i + 1;
    }
    assert(t@.subrange(0, c@.len() as int) =~= t@);
    Some(to_lowercase(out.as_str()))
}

/// The prefix of `w` made of package-name characters.
#[verifier::spinoff_prover]
fn leading_name_of(w: &str) -> (r: &str)
    ensures
        r@ == leading_name(w@),
{
    let c = chars_of(w);
    let n = c.len();
    let mut i: usize = 0;
    assert(w@.subrange(0, 0) + w@.subrange(0, n as int) =~= w@);
    while i < n && is_req_name_char_exec(c[i])
        invariant
            c@ == w@,
            n == c@.len(),
            i <= n,
            leading_name(w@) == w@.subrange(0, i as int) + leading_name(w@.subrange(i as int, n as int)),
        decreases n - i,
    {
        let ghost rest = w@.subrange(i as int, n as int);
        assert(rest.drop_first() =~= w@.subrange(i + 1, n as int));
        assert(w@.subrange(0, i as int) + seq![rest[0]] =~= w@.subrange(0, i + 1));
        assert(w@.subrange(0, i as int) + (seq![rest[0]] + leading_name(rest.drop_first())) =~= w@.subrange(0, i + 1) + leading_name(rest.drop_first()));
        i = i + 1;
    }
    assert(w@.subrange(0, i as int) + Seq::<char>::empty() =~= w@.subrange(0, i as int));
    w.substring_char(0, i)
}

/// The normalised package name a requirements line names, if any.
#[verifier::spinoff_prover]
pub fn normalize_requirement(input: &str) -> (r: Option<String>)
    ensures
        opt_str_view(r) == normalize_requirement_spec(input@),
{
    let t = trim_str(input);
    if t.is_empty() {
        return None;
    }
    let tc = chars_of(t);
    if tc[0] == '#' || tc[0] == '-' {
        return None;
    }
    let w = match index_of_exec(&tc, ';') {
        Some(k) => t.substring_char(0, k),
        None => t,
    };
    let wc = chars_of(w);
    let egg = chars_of("#egg=");
    match find_exec(&wc, &egg, 0) {
        Some(k) => {
            assert(k + egg@.len() <= wc@.len()) by {
                crate::text::lemma_find_from_bounds(wc@, egg@, 0);
            }
            return normalize_name(w.substring_char(k + egg.len(), wc.len()));
        },
        None => {},
    }
    let scheme_sep = chars_of("://");
    if find_exec(&wc, &scheme_sep, 0).is_some() {
        return None;
    }
    let name = leading_name_of(w);
    if name.is_empty() {
        return None;
    }
    normalize_name(name)
}

/// The packages that the lines of a requirements file name, in order.
pub open spec fn requirement_names_spec(lines: Seq<Seq<char>>) -> Seq<Seq<char>>
    decreases lines.len(),
{
    if lines.len() == 0 {
        seq![]
    } else {
        requirement_names_spec(lines.drop_last()) + match normalize_requirement_spec(lines.last()) {
            Some(n) => seq![n],
            None => seq![],
        }
    }
}

/// The normalised package names a `requirements.txt` lists, in order.
#[verifier::spinoff_prover]
pub fn requirement_names(content: &str) -> (r: Vec<String>)
    ensures
        strings_view(r@) == requirement_names_spec(lines_of(content@)),
{
    let lines = lines_vec(content);
    let ghost ls = lines@.map_values(|l: &str| l@);
    let mut out: Vec<String> = Vec::new();
    let mut i: usize = 0;
    assert(strings_view(out@) =~= requirement_names_spec(ls.subrange(0, 0)));
    while i < lines.len()
        invariant
            ls == lines@.map_values(|l: &str| l@),
            i <= lines@.len(),
            strings_view(out@) == requirement_names_spec(ls.subrange(0, i as int)),
        decreases lines@.len() - i,
    {
        assert(ls.subrange(0, i + 1).drop_last() =~= ls.subrange(0, i as int));
        assert(ls[i as int] == lines@[i as int]@);
        let ghost prev = out@;
        match normalize_requirement(lines[i]) {
            Some(n) => {
                out.push(n);
                assert(strings_view(out@) =~= strings_view(prev) + seq![out@.last()@]);
            },
            None => {
                assert(strings_view(out@) =~= strings_view(prev) + Seq::<Seq<char>>::empty());
            },
        }
        i = i + 1;
    }
    assert(ls.subrange(0, lines@.len() as int) =~= ls);
    out
}

/// One labelled link of a PyPI project.
pub struct ProjectUrl {
    pub label: String,
    pub url: String,
}

/// What the PyPI JSON API tells of a project's links. `project_urls` lists the
/// labelled links ordered by label, each label once.
pub struct PyPiProject {
    pub home_page: Option<String>,
    pub project_urls: Option<Vec<ProjectUrl>>,
}

/// The link under `label`, if any.
pub open spec fn link_for(links: Seq<ProjectUrl>, label: Seq<char>) -> Option<Seq<char>>
    decreases links.len(),
{
    if links.len() == 0 {
        None
    } else if links[0].label@ == label {
        Some(links[0].url@)
    } else {
        link_for(links.drop_first(), label)
    }
}

pub open spec fn link_urls(links: Seq<ProjectUrl>) -> Seq<Seq<char>> {
    links.map_values(|l: ProjectUrl| l.url@)
}

/// The values a project's candidate list is built from: the links labelled
/// `Source`, `Homepage`, `Code` and `Repository`, then every link by label,
/// then the home page.
pub open spec fn pypi_values(p: PyPiProject) -> Seq<Seq<char>> {
    pypi_link_values(p) + opt_seq(opt_str_view(p.home_page))
}

pub open spec fn pypi_link_values(p: PyPiProject) -> Seq<Seq<char>> {
    match p.project_urls {
        Some(v) => opt_seq(link_for(v@, "Source"@)) + opt_seq(link_for(v@, "Homepage"@)) + opt_seq(
            link_for(v@, "Code"@),
        ) + opt_seq(link_for(v@, "Repository"@)) + link_urls(v@),
        None => seq![],
    }
}

#[verifier::spinoff_prover]
fn link_for_exec<'a>(links: &'a Vec<ProjectUrl>, label: &str) -> (r: Option<&'a String>)
    ensures
        match r {
            Some(u) => link_for(links@, label@) == Some(u@),
            None => link_for(links@, label@) is None,
        },
{
    let mut i: usize = 0;
    assert(links@.subrange(0, links@.len() as int) =~= links@);
    while i < links.len()
        invariant
            i <= links@.len(),
            link_for(links@, label@) == link_for(links@.subrange(i as int, links@.len() as int), label@),
        decreases links@.len() - i,
    {
        let ghost rest = links@.subrange(i as int, links@.len() as int);
        assert(rest.drop_first() =~= links@.subrange(i + 1, links@.len() as int));
        if crate::text::same_str(links[i].label.as_str(), label) {
            return Some(&links[i].url);
        }
        i = i + 1;
    }
    None
}

#[verifier::spinoff_prover]
fn add_link(c: &mut CandidateUrls, links: &Vec<ProjectUrl>, label: &str, vals: Ghost<Seq<Seq<char>>>)
    requires
        old(c).well_formed(),
        old(c).view_urls() == candidate_list(vals@),
    ensures
        final(c).well_formed(),
        final(c).view_urls() == candidate_list(vals@ + opt_seq(link_for(links@, label@))),
{
    match link_for_exec(links, label) {
        Some(u) => {
            assert((vals@ + seq![u@]).drop_last() =~= vals@);
            c.add(u.as_str());
        },
        None => {
            assert(vals@ + Seq::<Seq<char>>::empty() =~= vals@);
        },
    }
}

impl PyPiProject {
    /// The project's candidate repository URLs: trimmed, non-blank, each once
    /// up to case.
    #[verifier::spinoff_prover]
    #[verifier::rlimit(40)]
    pub fn candidate_urls(&self) -> (r: Vec<String>)
        ensures
            strings_view(r@) == candidate_list(pypi_values(*self)),
    {
        let mut c = CandidateUrls::new();
        let ghost vals: Seq<Seq<char>> = seq![];
        match &self.project_urls {
            Some(links) => {
                add_link(&mut c, links, "Source", Ghost(vals));
                proof { vals = vals + opt_seq(link_for(links@, "Source"@)); }
                add_link(&mut c, links, "Homepage", Ghost(vals));
                proof { vals = vals + opt_seq(link_for(links@, "Homepage"@)); }
                add_link(&mut c, links, "Code", Ghost(vals));
                proof { vals = vals + opt_seq(link_for(links@, "Code"@)); }
                add_link(&mut c, links, "Repository", Ghost(vals));
                proof { vals = vals + opt_seq(link_for(links@, "Repository"@)); }
                let ghost base = vals;
                let mut i: usize = 0;
                while i < links.len()
                    invariant
                        i <= links@.len(),
                        c.well_formed(),
                        vals == base + link_urls(links@.subrange(0, i as int)),
                        c.view_urls() == candidate_list(vals),
                    decreases links@.len() - i,
                {
                    let ghost prev = vals;
                    c.add(links[i].url.as_str());
                    proof {
                        vals = vals.push(links@[i as int].url@);
                        assert(vals.drop_last() =~= prev);
                        assert(link_urls(links@.subrange(0, i + 1)) =~= link_urls(links@.subrange(0, i as int)).push(links@[i as int].url@));
                    }
                    i = i + 1;
                }
                assert(links@.subrange(0, links@.len() as int) =~= links@);
            },
            None => {
                assert(candidate_list(vals) =~= Seq::<Seq<char>>::empty());
            },
        }
        assert(c.view_urls() == candidate_list(vals));
        assert(vals =~= pypi_link_values(*self));
        let ghost before = vals;
        match &self.home_page {
            Some(h) => {
                c.add(h.as_str());
                proof { vals = vals.push(h@); assert(vals.drop_last() =~= before); }
            },
            None => {},
        }
        assert(vals =~= pypi_values(*self));
        c.into_urls()
    }
}

pub open spec fn deref_opt(o: Option<&Json>) -> Option<Json> {
    match o {
        Some(x) => Some(*x),
        None => None,
    }
}

pub open spec fn member_of(o: Option<Json>, key: Seq<char>) -> Option<Json> {
    match o {
        Some(v) => member(v, key),
        None => None,
    }
}

/// The packages that the requirement strings of an array name.
pub open spec fn requirement_strings(items: Seq<Json>) -> Seq<Seq<char>>
    decreases items.len(),
{
    if items.len() == 0 {
        seq![]
    } else {
        requirement_strings(items.drop_last()) + match items.last() {
            Json::Str(t) => opt_seq(normalize_requirement_spec(t@)),
            _ => seq![],
        }
    }
}

/// The packages that the keys of a table name, with `python` itself left out
/// when `skip_python` holds.
pub open spec fn key_names(entries: Seq<(String, Json)>, skip_python: bool) -> Seq<Seq<char>>
    decreases entries.len(),
{
    if entries.len() == 0 {
        seq![]
    } else {
        let k = entries.last().0@;
        key_names(entries.drop_last(), skip_python) + if skip_python && eq_ignore_ascii_case(
            k,
            "python"@,
        ) {
            seq![]
        } else {
            opt_seq(normalize_name_spec(k))
        }
    }
}

pub open spec fn array_requirements(o: Option<Json>) -> Seq<Seq<char>> {
    match o {
        Some(Json::Array(items)) => requirement_strings(items@),
        _ => seq![],
    }
}

pub open spec fn table_keys(o: Option<Json>, skip_python: bool) -> Seq<Seq<char>> {
    match o {
        Some(Json::Object(entries)) => key_names(entries@, skip_python),
        _ => seq![],
    }
}

/// The requirement arrays among the values of a table, in order.
pub open spec fn value_arrays(entries: Seq<(String, Json)>) -> Seq<Seq<char>>
    decreases entries.len(),
{
    if entries.len() == 0 {
        seq![]
    } else {
        value_arrays(entries.drop_last()) + array_requirements(Some(entries.last().1))
    }
}

/// The keys of the `dependencies` table of each Poetry group, in order.
pub open spec fn group_tables(entries: Seq<(String, Json)>) -> Seq<Seq<char>>
    decreases entries.len(),
{
    if entries.len() == 0 {
        seq![]
    } else {
        group_tables(entries.drop_last()) + table_keys(member(entries.last().1, "dependencies"@), true)
    }
}

pub open spec fn per_value(o: Option<Json>, groups: bool) -> Seq<Seq<char>> {
    match o {
        Some(Json::Object(entries)) => if groups {
            group_tables(entries@)
        } else {
            value_arrays(entries@)
        },
        _ => seq![],
    }
}

/// The packages a `pyproject.toml` names: `project.dependencies`, the arrays
/// of `project.optional-dependencies`, the Poetry dependency tables (without
/// `python`), and `tool.uv.workspace.dependencies`.
pub open spec fn pyproject_spec(doc: Json) -> Seq<Seq<char>> {
    let project = member(doc, "project"@);
    let tool = member(doc, "tool"@);
    let poetry = member_of(tool, "poetry"@);
    (match project {
        Some(p) => array_requirements(member(p, "dependencies"@)) + per_value(
            member(p, "optional-dependencies"@),
            false,
        ),
        None => seq![],
    }) + (match poetry {
        Some(po) => table_keys(member(po, "dependencies"@), true) + table_keys(
            member(po, "dev-dependencies"@),
            true,
        ) + per_value(member(po, "group"@), true),
        None => seq![],
    }) + array_requirements(member_of(member_of(member_of(tool, "uv"@), "workspace"@), "dependencies"@))
}

#[verifier::spinoff_prover]
fn member_opt<'a>(o: Option<&'a Json>, key: &str) -> (r: Option<&'a Json>)
    ensures
        deref_opt(r) == member_of(deref_opt(o), key@),
{
    match o {
        Some(v) => member_exec(v, key),
        None => None,
    }
}

#[verifier::spinoff_prover]
fn push_array_requirements(o: Option<&Json>, out: &mut Vec<String>)
    ensures
        strings_view(final(out)@) == strings_view(old(out)@) + array_requirements(deref_opt(o)),
{
    let ghost base = strings_view(out@);
    match o {
        Some(Json::Array(items)) => {
            let mut i: usize = 0;
            assert(strings_view(out@) =~= base + requirement_strings(items@.subrange(0, 0)));
            while i < items.len()
                invariant
                    i <= items@.len(),
                    strings_view(out@) == base + requirement_strings(items@.subrange(0, i as int)),
                decreases items@.len() - i,
            {
                let ghost pre = items@.subrange(0, i + 1);
                assert(pre.drop_last() =~= items@.subrange(0, i as int));
                let ghost before = strings_view(out@);
                match &items[i] {
                    Json::Str(t) => match normalize_requirement(t.as_str()) {
                        Some(n) => {
                            out.push(n);
                            assert(strings_view(out@) =~= before + seq![out@.last()@]);
                        },
                        None => {
                            assert(strings_view(out@) =~= before + Seq::<Seq<char>>::empty());
                        },
                    },
                    _ => {
                        assert(strings_view(out@) =~= before + Seq::<Seq<char>>::empty());
                    },
                }
                assert(strings_view(out@) =~= base + requirement_strings(pre));
                i = i + 1;
            }
            assert(items@.subrange(0, items@.len() as int) =~= items@);
        },
        _ => {
            assert(strings_view(out@) =~= base + Seq::<Seq<char>>::empty());
        },
    }
}

#[verifier::spinoff_prover]
fn push_table_keys(o: Option<&Json>, skip_python: bool, out: &mut Vec<String>)
    ensures
        strings_view(final(out)@) == strings_view(old(out)@) + table_keys(deref_opt(o), skip_python),
{
    let ghost base = strings_view(out@);
    match o {
        Some(Json::Object(entries)) => {
            let mut i: usize = 0;
            assert(strings_view(out@) =~= base + key_names(entries@.subrange(0, 0), skip_python));
            while i < entries.len()
                invariant
                    i <= entries@.len(),
                    strings_view(out@) == base + key_names(
                        entries@.subrange(0, i as int),
                        skip_python,
                    ),
                decreases entries@.len() - i,
            {
                let ghost pre = entries@.subrange(0, i + 1);
                assert(pre.drop_last() =~= entries@.subrange(0, i as int));
                let ghost before = strings_view(out@);
                let k = entries[i].0.as_str();
                let kc = chars_of(k);
                let py = chars_of("python");
                if skip_python && crate::text::eq_ignore_ascii_case_exec(&kc, &py) {
                    assert(strings_view(out@) =~= before + Seq::<Seq<char>>::empty());
                } else {
                    match normalize_name(k) {
                        Some(n) => {
                            out.push(n);
                            assert(strings_view(out@) =~= before + seq![out@.last()@]);
                        },
                        None => {
                            assert(strings_view(out@) =~= before + Seq::<Seq<char>>::empty());
                        },
                    }
                }
                assert(strings_view(out@) =~= base + key_names(pre, skip_python));
                i = i + 1;
            }
            assert(entries@.subrange(0, entries@.len() as int) =~= entries@);
        },
        _ => {
            assert(strings_view(out@) =~= base + Seq::<Seq<char>>::empty());
        },
    }
}

#[verifier::spinoff_prover]
fn push_per_value(o: Option<&Json>, groups: bool, out: &mut Vec<String>)
    ensures
        strings_view(final(out)@) == strings_view(old(out)@) + per_value(deref_opt(o), groups),
{
    let ghost base = strings_view(out@);
    match o {
        Some(Json::Object(entries)) => {
            let mut i: usize = 0;
            assert(strings_view(out@) =~= base + group_tables(entries@.subrange(0, 0)));
            assert(strings_view(out@) =~= base + value_arrays(entries@.subrange(0, 0)));
            while i < entries.len()
                invariant
                    i <= entries@.len(),
                    strings_view(out@) == base + if groups {
                        group_tables(entries@.subrange(0, i as int))
                    } else {
                        value_arrays(entries@.subrange(0, i as int))
                    },
                decreases entries@.len() - i,
            {
                let ghost pre = entries@.subrange(0, i + 1);
                assert(pre.drop_last() =~= entries@.subrange(0, i as int));
                if groups {
                    push_table_keys(member_exec(&entries[i].1, "dependencies"), true, out);
                    assert(strings_view(out@) =~= base + group_tables(pre));
                } else {
                    push_array_requirements(Some(&entries[i].1), out);
                    assert(strings_view(out@) =~= base + value_arrays(pre));
                }
                i = i + 1;
            }
            assert(entries@.subrange(0, entries@.len() as int) =~= entries@);
        },
        _ => {
            assert(strings_view(out@) =~= base + Seq::<Seq<char>>::empty());
        },
    }
}

/// The normalised packages a `pyproject.toml` names, in document order.
#[verifier::spinoff_prover]
pub fn pyproject_names(doc: &Json) -> (r: Vec<String>)
    ensures
        strings_view(r@) == pyproject_spec(*doc),
{
    let mut out: Vec<String> = Vec::new();
    assert(strings_view(out@) =~= Seq::<Seq<char>>::empty());
    let project = member_exec(doc, "project");
    match project {
        Some(p) => {
            push_array_requirements(member_exec(p, "dependencies"), &mut out);
            push_per_value(member_exec(p, "optional-dependencies"), false, &mut out);
        },
        None => {},
    }
    let ghost after_project = strings_view(out@);
    let tool = member_exec(doc, "tool");
    let poetry = member_opt(tool, "poetry");
    match poetry {
        Some(po) => {
            push_table_keys(member_exec(po, "dependencies"), true, &mut out);
            push_table_keys(member_exec(po, "dev-dependencies"), true, &mut out);
            push_per_value(member_exec(po, "group"), true, &mut out);
        },
        None => {},
    }
    let ghost after_poetry = strings_view(out@);
    let workspace = member_opt(member_opt(tool, "uv"), "workspace");
    push_array_requirements(member_opt(workspace, "dependencies"), &mut out);
    assert(strings_view(out@) =~= pyproject_spec(*doc));
    out
}

/// The normalised packages a `Pipfile` lists under `packages` and
/// `dev-packages`.
pub open spec fn pipfile_spec(doc: Json) -> Seq<Seq<char>> {
    table_keys(member(doc, "packages"@), false) + table_keys(member(doc, "dev-packages"@), false)
}

#[verifier::spinoff_prover]
pub fn pipfile_names(doc: &Json) -> (r: Vec<String>)
    ensures
        strings_view(r@) == pipfile_spec(*doc),
{
    let mut out: Vec<String> = Vec::new();
    assert(strings_view(out@) =~= Seq::<Seq<char>>::empty());
    push_table_keys(member_exec(doc, "packages"), false, &mut out);
    push_table_keys(member_exec(doc, "dev-packages"), false, &mut out);
    assert(strings_view(out@) =~= pipfile_spec(*doc));
    out
}

/// The normalised packages a `Pipfile.lock` lists under `default` and
/// `develop`.
pub open spec fn pipfile_lock_spec(doc: Json) -> Seq<Seq<char>> {
    table_keys(member(doc, "default"@), false) + table_keys(member(doc, "develop"@), false)
}

#[verifier::spinoff_prover]
pub fn pipfile_lock_names(doc: &Json) -> (r: Vec<String>)
    ensures
        strings_view(r@) == pipfile_lock_spec(*doc),
{
    let mut out: Vec<String> = Vec::new();
    assert(strings_view(out@) =~= Seq::<Seq<char>>::empty());
    push_table_keys(member_exec(doc, "default"), false, &mut out);
    push_table_keys(member_exec(doc, "develop"), false, &mut out);
    assert(strings_view(out@) =~= pipfile_lock_spec(*doc));
    out
}

/// The normalised names of the `[[package]]` entries of a `uv.lock`.
pub open spec fn locked_names(items: Seq<Json>) -> Seq<Seq<char>>
    decreases items.len(),
{
    if items.len() == 0 {
        seq![]
    } else {
        locked_names(items.drop_last()) + match member(items.last(), "name"@) {
            Some(Json::Str(n)) => opt_seq(normalize_name_spec(n@)),
            _ => seq![],
        }
    }
}

pub open spec fn uv_lock_spec(doc: Json) -> Seq<Seq<char>> {
    match member(doc, "package"@) {
        Some(Json::Array(items)) => locked_names(items@),
        _ => seq![],
    }
}

#[verifier::spinoff_prover]
pub fn uv_lock_names(doc: &Json) -> (r: Vec<String>)
    ensures
        strings_view(r@) == uv_lock_spec(*doc),
{
    let mut out: Vec<String> = Vec::new();
    match member_exec(doc, "package") {
        Some(Json::Array(items)) => {
            let mut i: usize = 0;
            assert(strings_view(out@) =~= locked_names(items@.subrange(0, 0)));
            while i < items.len()
                invariant
                    i <= items@.len(),
                    strings_view(out@) == locked_names(items@.subrange(0, i as int)),
                decreases items@.len() - i,
            {
                let ghost pre = items@.subrange(0, i + 1);
                assert(pre.drop_last() =~= items@.subrange(0, i as int));
                let ghost before = strings_view(out@);
                match member_exec(&items[i], "name") {
                    Some(Json::Str(n)) => match normalize_name(n.as_str()) {
                        Some(x) => {
                            out.push(x);
                            assert(strings_view(out@) =~= before + seq![out@.last()@]);
                        },
                        None => {
                            assert(strings_view(out@) =~= before + Seq::<Seq<char>>::empty());
                        },
                    },
                    _ => {
                        assert(strings_view(out@) =~= before + Seq::<Seq<char>>::empty());
                    },
                }
                assert(strings_view(out@) =~= locked_names(pre));
                i = i + 1;
            }
            assert(items@.subrange(0, items@.len() as int) =~= items@);
        },
        _ => {
            assert(strings_view(out@) =~= Seq::<Seq<char>>::empty());
        },
    }
    out
}

} // verus!
