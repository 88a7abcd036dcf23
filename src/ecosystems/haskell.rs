use vstd::prelude::*;

use crate::candidates::{add_candidate, CandidateUrls};
use crate::discovery::strings_view;
use crate::json::{lookup, lookup_exec, member, member_exec, Json};
use crate::text::{
    chars_of, find, find_exec, has_prefix, index_of, index_of_exec, is_whitespace_char, is_ws,
    lines_of, lines_vec, next_line, starts_with, strip_prefix, trim, trim_str,
};

verus! {

/// One line of a `.cabal` file read into the state (URLs so far, inside a
/// `source-repository` block): comments are skipped, a blank line or an
/// unindented one ends the block, `homepage:` and `bug-reports:` are taken
/// anywhere and `location:` only inside the block.
#[verifier::opaque]
pub open spec fn cabal_step(st: (Seq<Seq<char>>, bool), line: Seq<char>) -> (Seq<Seq<char>>, bool) {
    let t = trim(line);
    if has_prefix(t, "--"@) {
        st
    } else if t.len() == 0 {
        (st.0, false)
    } else if has_prefix(t, "source-repository "@) {
        (st.0, true)
    } else {
        let inside = if line.len() > 0 && (line[0] == ' ' || line[0] == '\t') {
            st.1
        } else {
            false
        };
        if has_prefix(t, "homepage:"@) {
            (add_candidate(st.0, t.subrange("homepage:"@.len() as int, t.len() as int)), inside)
        } else if has_prefix(t, "bug-reports:"@) {
            (add_candidate(st.0, t.subrange("bug-reports:"@.len() as int, t.len() as int)), inside)
        } else if inside && has_prefix(t, "location:"@) {
            (add_candidate(st.0, t.subrange("location:"@.len() as int, t.len() as int)), inside)
        } else {
            (st.0, inside)
        }
    }
}

pub open spec fn cabal_fold(lines: Seq<Seq<char>>, st: (Seq<Seq<char>>, bool)) -> (
    Seq<Seq<char>>,
    bool,
)
    decreases lines.len(),
{
    if lines.len() == 0 {
        st
    } else {
        cabal_fold(lines.drop_first(), cabal_step(st, lines[0]))
    }
}

/// The URLs a `.cabal` file gives for its package.
pub open spec fn cabal_urls(cabal: Seq<char>) -> Seq<Seq<char>> {
    cabal_fold(lines_of(cabal), (seq![], false)).0
}

/// The links Hackage knows for a package.
#[derive(Clone, Debug, Default)]
pub struct HackagePackage {
    pub urls: Vec<String>,
}

#[verifier::spinoff_prover]
fn cabal_line(urls: &mut CandidateUrls, inside: bool, line: &str) -> (r: bool)
    requires
        old(urls).well_formed(),
    ensures
        final(urls).well_formed(),
        (final(urls).view_urls(), r) == cabal_step((old(urls).view_urls(), inside), line@),
{
    reveal(cabal_step);
    let t = trim_str(line);
    if starts_with(t, "--") {
        return inside;
    }
    if t.is_empty() {
        return false;
    }
    if starts_with(t, "source-repository ") {
        return true;
    }
    let lc = chars_of(line);
    let inside = if lc.len() > 0 && (lc[0] == ' ' || lc[0] == '\t') {
        inside
    } else {
        false
    };
    if let Some(rest) = strip_prefix(t, "homepage:") {
        urls.add(rest);
        return inside;
    }
    if let Some(rest) = strip_prefix(t, "bug-reports:") {
        urls.add(rest);
        return inside;
    }
    if inside {
        if let Some(rest) = strip_prefix(t, "location:") {
            urls.add(rest);
        }
    }
    inside
}

impl HackagePackage {
    /// The package's candidate repository URLs.
    #[verifier::spinoff_prover]
    pub fn candidate_urls(&self) -> (r: Vec<String>)
        ensures
            strings_view(r@) == strings_view(self.urls@),
    {
        let mut out: Vec<String> = Vec::new();
        let mut i: usize = 0;
        while i < self.urls.len()
            invariant
                i <= self.urls@.len(),
                strings_view(out@) == strings_view(self.urls@.subrange(0, i as int)),
            decreases self.urls@.len() - i,
        {
            let ghost prev = out@;
            out.push(self.urls[i].clone());
            assert(strings_view(out@) =~= strings_view(prev).push(self.urls@[i as int]@));
            assert(strings_view(self.urls@.subrange(0, i + 1)) =~= strings_view(
                self.urls@.subrange(0, i as int),
            ).push(self.urls@[i as int]@));
            i = i + 1;
        }
        assert(self.urls@.subrange(0, self.urls@.len() as int) =~= self.urls@);
        out
    }

    /// Reads the home page, bug-report and source-repository locations of a
    /// `.cabal` file, each trimmed and kept once up to case.
    #[verifier::spinoff_prover]
    #[verifier::rlimit(40)]
    pub fn from_cabal(cabal: &str) -> (r: HackagePackage)
        ensures
            strings_view(r.urls@) == cabal_urls(cabal@),
    {
        let chars = chars_of(cabal);
    let n = chars.len();
        let mut pos: usize = 0;
        let mut urls = CandidateUrls::new();
        let mut inside = false;
        assert(cabal@.subrange(0, n as int) =~= cabal@);
        let ghost goal = cabal_urls(cabal@);
        assert(urls.view_urls() =~= Seq::<Seq<char>>::empty());
        while pos < n
            invariant
                chars@ == cabal@,
            n == cabal@.len(),
                pos <= n,
                urls.well_formed(),
                goal == cabal_fold(
                    lines_of(cabal@.subrange(pos as int, n as int)),
                    (urls.view_urls(), inside),
                ).0,
            decreases n - pos,
        {
            let (line, next) = next_line(cabal, &chars, pos);
            let ghost ls = lines_of(cabal@.subrange(pos as int, n as int));
            let ghost st = (urls.view_urls(), inside);
            assert(ls.drop_first() =~= lines_of(cabal@.subrange(next as int, n as int)));
            assert(ls[0] == line@);
            assert(cabal_fold(ls, st) == cabal_fold(ls.drop_first(), cabal_step(st, line@)));
            inside = cabal_line(&mut urls, inside, line);
            pos = next;
        }
        assert(cabal@.subrange(n as int, n as int) =~= Seq::<char>::empty());
        assert(lines_of(Seq::<char>::empty()) =~= Seq::<Seq<char>>::empty());
        HackagePackage { urls: urls.into_urls() }
    }
}

/// A character that ends a dependency's package name.
pub open spec fn ends_name(c: char) -> bool {
    is_ws(c) || c == '(' || c == ':'
}

/// `s` up to the first character that ends a package name.
pub open spec fn name_prefix(s: Seq<char>) -> Seq<char> {
    if exists|i: int| 0 <= i < s.len() && ends_name(s[i]) {
        s.subrange(
            0,
            choose|i: int|
                0 <= i < s.len() && ends_name(s[i]) && forall|j: int| 0 <= j < i ==> !ends_name(s[j]),
        )
    } else {
        s
    }
}

/// The package a dependency entry names: none if blank or if it starts with a
/// decimal digit.
pub open spec fn dependency_name_spec(input: Seq<char>) -> Option<Seq<char>> {
    let t = trim(input);
    if t.len() == 0 || ('0' <= t[0] && t[0] <= '9') {
        None
    } else {
        let name = trim(name_prefix(t));
        if name.len() == 0 {
            None
        } else {
            Some(name)
        }
    }
}

#[verifier::spinoff_prover]
fn name_prefix_of(s: &str) -> (r: &str)
    ensures
        r@ == name_prefix(s@),
{
    let c = chars_of(s);
    let mut i: usize = 0;
    while i < c.len()
        invariant
            c@ == s@,
            i <= c@.len(),
            forall|j: int| 0 <= j < i ==> !ends_name(c@[j]),
        decreases c@.len() - i,
    {
        if is_whitespace_char(c[i]) || c[i] == '(' || c[i] == ':' {
            proof {
                let w = choose|k: int|
                    0 <= k < s@.len() && ends_name(s@[k]) && forall|j: int|
                        0 <= j < k ==> !ends_name(s@[j]);
                assert(w == i as int) by {
                    if w < i as int {
                    } else if w > i as int {
                        assert(!ends_name(s@[i as int]));
                    }
                }
            }
            return s.substring_char(0, i);
        }
        i = i + 1;
    }
    assert(s@.subrange(0, c@.len() as int) =~= s@);
    s
}

/// The package name of a dependency entry such as `text >= 1.2`.
#[verifier::spinoff_prover]
pub fn parse_dependency_name(input: &str) -> (r: Option<String>)
    ensures
        crate::discovery::opt_str_view(r) == dependency_name_spec(input@),
{
    let t = trim_str(input);
    if t.is_empty() {
        return None;
    }
    let c = chars_of(t);
    if '0' <= c[0] && c[0] <= '9' {
        return None;
    }
    let name = trim_str(name_prefix_of(t));
    if name.is_empty() {
        return None;
    }
    Some(String::from_str(name))
}

/// The entry `part` of a dependency list: trimmed, cut at a `--` comment.
pub open spec fn entry_names(part: Seq<char>) -> Seq<Seq<char>> {
    let raw = trim(part);
    let cut = trim(
        match find(raw, "--"@) {
            Some(k) => raw.subrange(0, k),
            None => raw,
        },
    );
    if raw.len() == 0 || cut.len() == 0 {
        seq![]
    } else {
        match dependency_name_spec(cut) {
            Some(n) => seq![n],
            None => seq![],
        }
    }
}

/// The package names of a comma-separated dependency list, in order.
pub open spec fn extract_spec(list: Seq<char>) -> Seq<Seq<char>>
    decreases list.len(),
{
    match index_of(list, ',') {
        Some(k) => if 0 <= k < list.len() {
            entry_names(list.subrange(0, k)) + extract_spec(list.subrange(k + 1, list.len() as int))
        } else {
            seq![]
        },
        None => entry_names(list),
    }
}

#[verifier::spinoff_prover]
fn entry_name_into(out: &mut Vec<String>, part: &str)
    ensures
        strings_view(final(out)@) == strings_view(old(out)@) + entry_names(part@),
{
    let ghost prev = out@;
    let raw = trim_str(part);
    if raw.is_empty() {
        assert(strings_view(out@) =~= strings_view(prev) + Seq::<Seq<char>>::empty());
        return;
    }
    let rc = chars_of(raw);
    let dashes = chars_of("--");
    let before = match find_exec(&rc, &dashes, 0) {
        Some(k) => {
            proof { crate::text::lemma_find_from_bounds(rc@, dashes@, 0); }
            raw.substring_char(0, k)
        },
        None => raw,
    };
    let cut = trim_str(before);
    if cut.is_empty() {
        assert(strings_view(out@) =~= strings_view(prev) + Seq::<Seq<char>>::empty());
        return;
    }
    match parse_dependency_name(cut) {
        Some(n) => {
            out.push(n);
            assert(strings_view(out@) =~= strings_view(prev) + seq![out@.last()@]);
        },
        None => {
            assert(strings_view(out@) =~= strings_view(prev) + Seq::<Seq<char>>::empty());
        },
    }
}

/// Appends the package names of a comma-separated dependency list to `out`.
#[verifier::spinoff_prover]
pub fn extract_dependencies(list: &str, out: &mut Vec<String>)
    ensures
        strings_view(final(out)@) == strings_view(old(out)@) + extract_spec(list@),
    decreases list@.len(),
{
    let c = chars_of(list);
    match index_of_exec(&c, ',') {
        Some(k) => {
            assert(k < c.len());
            let ghost before = strings_view(out@);
            entry_name_into(out, list.substring_char(0, k));
            let ghost mid = strings_view(out@);
            extract_dependencies(list.substring_char(k + 1, c.len()), out);
            assert(strings_view(out@) =~= before + extract_spec(list@));
        },
        None => {
            entry_name_into(out, list);
        },
    }
}

/// A line that only carries a comment.
pub open spec fn is_comment(line: Seq<char>) -> bool {
    has_prefix(trim(line), "--"@)
}

pub open spec fn indented(line: Seq<char>) -> bool {
    line.len() > 0 && (line[0] == ' ' || line[0] == '\t')
}

/// The dependency list that starts with `buf` and continues over the lines
/// from `j` on: comment lines are skipped, a line starting with `,` or an
/// indented line without `:` is joined. Returns the list and the first line
/// not taken.
pub open spec fn continuation(lines: Seq<Seq<char>>, j: int, buf: Seq<char>) -> (Seq<char>, int)
    decreases lines.len() - j,
{
    if j < 0 || j >= lines.len() {
        (buf, j)
    } else {
        let nt = trim(lines[j]);
        if has_prefix(nt, "--"@) {
            continuation(lines, j + 1, buf)
        } else if has_prefix(nt, ","@) {
            continuation(lines, j + 1, buf + " "@ + nt)
        } else if indented(lines[j]) && !nt.contains(':') {
            continuation(lines, j + 1, buf + ", "@ + nt)
        } else {
            (buf, j)
        }
    }
}

/// The text after a `build-depends:` or `build-tool-depends:` field name.
pub open spec fn depends_field(t: Seq<char>) -> Option<Seq<char>> {
    if has_prefix(t, "build-depends:"@) {
        Some(t.subrange("build-depends:"@.len() as int, t.len() as int))
    } else if has_prefix(t, "build-tool-depends:"@) {
        Some(t.subrange("build-tool-depends:"@.len() as int, t.len() as int))
    } else {
        None
    }
}

/// The package names that the `build-depends` and `build-tool-depends` fields
/// of a `.cabal` file list from line `i` on, in order.
pub open spec fn cabal_deps_from(lines: Seq<Seq<char>>, i: int) -> Seq<Seq<char>>
    decreases lines.len() - i,
{
    if i < 0 || i >= lines.len() {
        seq![]
    } else {
        let t = trim(lines[i]);
        if has_prefix(t, "--"@) {
            cabal_deps_from(lines, i + 1)
        } else {
            match depends_field(t) {
                Some(rest) => {
                    let (buf, j) = continuation(lines, i + 1, trim(rest));
                    if i < j <= lines.len() {
                        extract_spec(buf) + cabal_deps_from(lines, j)
                    } else {
                        seq![]
                    }
                },
                None => cabal_deps_from(lines, i + 1),
            }
        }
    }
}

/// Joins the continuation lines of a dependency field onto `buf`.
#[verifier::spinoff_prover]
fn join_continuation(lines: &Vec<&str>, j: usize, buf: String) -> (r: (String, usize))
    requires
        j <= lines@.len(),
    ensures
        (r.0@, r.1 as int) == continuation(lines@.map_values(|l: &str| l@), j as int, buf@),
        j <= r.1 <= lines@.len(),
    decreases lines@.len() - j,
{
    let ghost ls = lines@.map_values(|l: &str| l@);
    if j >= lines.len() {
        return (buf, j);
    }
    let line = lines[j];
    assert(ls[j as int] == line@);
    let nt = trim_str(line);
    if starts_with(nt, "--") {
        return join_continuation(lines, j + 1, buf);
    }
    if starts_with(nt, ",") {
        let mut b = buf;
        b.append(" ");
        b.append(nt);
        return join_continuation(lines, j + 1, b);
    }
    let lc = chars_of(line);
    let ntc = chars_of(nt);
    if lc.len() > 0 && (lc[0] == ' ' || lc[0] == '\t') && !crate::text::contains_char(&ntc, ':') {
        let mut b = buf;
        b.append(", ");
        b.append(nt);
        return join_continuation(lines, j + 1, b);
    }
    (buf, j)
}

/// The package names that the `build-depends` and `build-tool-depends` fields
/// of a `.cabal` file list, in order.
#[verifier::spinoff_prover]
#[verifier::rlimit(40)]
pub fn parse_cabal_dependencies(content: &str) -> (r: Vec<String>)
    ensures
        strings_view(r@) == cabal_deps_from(lines_of(content@), 0),
{
    let lines = lines_vec(content);
    let ghost ls = lines@.map_values(|l: &str| l@);
    let mut out: Vec<String> = Vec::new();
    let mut i: usize = 0;
    assert(strings_view(out@) =~= Seq::<Seq<char>>::empty());
    while i < lines.len()
        invariant
            ls == lines@.map_values(|l: &str| l@),
            ls == lines_of(content@),
            i <= lines@.len(),
            cabal_deps_from(ls, 0) == strings_view(out@) + cabal_deps_from(ls, i as int),
        decreases lines@.len() - i,
    {
        let line = lines[i];
        assert(ls[i as int] == line@);
        let t = trim_str(line);
        if starts_with(t, "--") {
            i = i + 1;
            continue;
        }
        let rest = match strip_prefix(t, "build-depends:") {
            Some(r) => Some(r),
            None => strip_prefix(t, "build-tool-depends:"),
        };
        match rest {
            Some(r) => {
                let buf = String::from_str(trim_str(r));
                let (joined, j) = join_continuation(&lines, i + 1, buf);
                let ghost before = strings_view(out@);
                extract_dependencies(joined.as_str(), &mut out);
                assert(before + (extract_spec(joined@) + cabal_deps_from(ls, j as int)) =~= strings_view(out@) + cabal_deps_from(ls, j as int));
                i = j;
            },
            None => {
                i = i + 1;
            },
        }
    }
    assert(cabal_deps_from(ls, i as int) =~= Seq::<Seq<char>>::empty());
    assert(strings_view(out@) + Seq::<Seq<char>>::empty() =~= strings_view(out@));
    out
}

/// The package named by an entry of a `package.yaml` dependency list: a
/// string, or the `package` (else `name`) string of a table.
pub open spec fn yaml_entry_name(entry: Json) -> Option<Seq<char>> {
    match entry {
        Json::Str(v) => dependency_name_spec(v@),
        Json::Object(m) => match lookup(m@, "package"@) {
            Some(Json::Str(p)) => dependency_name_spec(p@),
            _ => match lookup(m@, "name"@) {
                Some(Json::Str(n)) => dependency_name_spec(n@),
                _ => None,
            },
        },
        _ => None,
    }
}

pub open spec fn yaml_entry_names(items: Seq<Json>) -> Seq<Seq<char>>
    decreases items.len(),
{
    if items.len() == 0 {
        seq![]
    } else {
        yaml_entry_names(items.drop_last()) + match yaml_entry_name(items.last()) {
            Some(n) => seq![n],
            None => seq![],
        }
    }
}

/// The packages the `dependencies` of a `package.yaml` name: a list of
/// entries, or a single string.
pub open spec fn package_yaml_spec(doc: Json) -> Seq<Seq<char>> {
    match member(doc, "dependencies"@) {
        Some(Json::Array(items)) => yaml_entry_names(items@),
        Some(Json::Str(v)) => match dependency_name_spec(v@) {
            Some(n) => seq![n],
            None => seq![],
        },
        _ => seq![],
    }
}

#[verifier::spinoff_prover]
fn yaml_entry_name_exec(entry: &Json) -> (r: Option<String>)
    ensures
        crate::discovery::opt_str_view(r) == yaml_entry_name(*entry),
{
    match entry {
        Json::Str(v) => parse_dependency_name(v.as_str()),
        Json::Object(m) => match lookup_exec(m, "package") {
            Some(Json::Str(p)) => parse_dependency_name(p.as_str()),
            _ => match lookup_exec(m, "name") {
                Some(Json::Str(n)) => parse_dependency_name(n.as_str()),
                _ => None,
            },
        },
        _ => None,
    }
}

/// The packages the `dependencies` of a `package.yaml` name, in order.
#[verifier::spinoff_prover]
pub fn package_yaml_dependencies(doc: &Json) -> (r: Vec<String>)
    ensures
        strings_view(r@) == package_yaml_spec(*doc),
{
    let mut out: Vec<String> = Vec::new();
    match member_exec(doc, "dependencies") {
        Some(Json::Array(items)) => {
            let mut i: usize = 0;
            assert(strings_view(out@) =~= yaml_entry_names(items@.subrange(0, 0)));
            while i < items.len()
                invariant
                    i <= items@.len(),
                    strings_view(out@) == yaml_entry_names(items@.subrange(0, i as int)),
                decreases items@.len() - i,
            {
                let ghost pre = items@.subrange(0, i + 1);
                assert(pre.drop_last() =~= items@.subrange(0, i as int));
                let ghost before = strings_view(out@);
                match yaml_entry_name_exec(&items[i]) {
                    Some(n) => {
                        out.push(n);
                        assert(strings_view(out@) =~= before + seq![out@.last()@]);
                    },
                    None => {
                        assert(strings_view(out@) =~= before + Seq::<Seq<char>>::empty());
                    },
                }
                assert(strings_view(out@) =~= yaml_entry_names(pre));
                i = i + 1;
            }
            assert(items@.subrange(0, items@.len() as int) =~= items@);
        },
        Some(Json::Str(v)) => {
            match parse_dependency_name(v.as_str()) {
                Some(n) => {
                    out.push(n);
                    assert(strings_view(out@) =~= seq![out@.last()@]);
                },
                None => {
                    assert(strings_view(out@) =~= Seq::<Seq<char>>::empty());
                },
            }
        },
        _ => {
            assert(strings_view(out@) =~= Seq::<Seq<char>>::empty());
        },
    }
    out
}

} // verus!
