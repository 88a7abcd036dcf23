use vstd::prelude::*;

use crate::text::{
    chars_of, contains_char, has_prefix, index_of, index_of_exec, occurs_at, occurs_at_exec,
    eq_ignore_ascii_case, eq_ignore_ascii_case_exec, is_ws, same_str, strip_prefix, trim, trim_char,
    trim_char_str, trim_str,
};

verus! {

/// A GitHub repository, identified by its `(owner, name)` pair.
#[derive(Debug, Clone, PartialEq, Eq, Hash)]
pub struct Repository {
    pub owner: String,
    pub name: String,
    pub url: String,
    pub via: Option<String>,
}

/// What a [`Repository`] holds, as mathematical strings.
pub struct RepoView {
    pub owner: Seq<char>,
    pub name: Seq<char>,
    pub url: Seq<char>,
    pub via: Option<Seq<char>>,
}

pub open spec fn opt_str_view(o: Option<String>) -> Option<Seq<char>> {
    match o {
        Some(s) => Some(s@),
        None => None,
    }
}

impl View for Repository {
    type V = RepoView;

    open spec fn view(&self) -> RepoView {
        RepoView { owner: self.owner@, name: self.name@, url: self.url@, via: opt_str_view(self.via) }
    }
}

pub open spec fn opt_repo_view(r: Option<Repository>) -> Option<RepoView> {
    match r {
        Some(x) => Some(x@),
        None => None,
    }
}

/// The identity of a repository: its owner and name, compared exactly.
pub open spec fn identity(r: RepoView) -> (Seq<char>, Seq<char>) {
    (r.owner, r.name)
}

#[verifier::spinoff_prover]
pub fn clone_opt_string(o: &Option<String>) -> (r: Option<String>)
    ensures
        opt_str_view(r) == opt_str_view(*o),
{
    match o {
        Some(s) => Some(s.clone()),
        None => None,
    }
}

impl Repository {
    /// A copy of this repository record.
    #[verifier::spinoff_prover]
    pub fn duplicate(&self) -> (r: Repository)
        ensures
            r@ == self@,
    {
        Repository {
            owner: self.owner.clone(),
            name: self.name.clone(),
            url: self.url.clone(),
            via: clone_opt_string(&self.via),
        }
    }

    /// This repository with its provenance label set to `via`.
    #[verifier::spinoff_prover]
    pub fn with_via(self, via: &str) -> (r: Repository)
        ensures
            r@ == (RepoView { via: Some(via@), ..self@ }),
    {
        Repository { via: Some(String::from_str(via)), ..self }
    }
}

/// The canonical web address of a repository.
pub open spec fn github_url(owner: Seq<char>, name: Seq<char>) -> Seq<char> {
    "https://github.com/"@ + owner + "/"@ + name
}

/// `s` with every trailing occurrence of the non-empty `suffix` removed.
pub open spec fn strip_suffix_all(s: Seq<char>, suffix: Seq<char>) -> Seq<char>
    decreases s.len(),
{
    if suffix.len() > 0 && s.len() >= suffix.len() && s.subrange(
        s.len() - suffix.len(),
        s.len() as int,
    ) == suffix {
        strip_suffix_all(s.subrange(0, s.len() - suffix.len()), suffix)
    } else {
        s
    }
}

/// The repository record for `owner` and `repo`, with any `.git` suffix of `repo` removed.
pub open spec fn build_spec(owner: Seq<char>, repo: Seq<char>) -> Option<RepoView> {
    let name = strip_suffix_all(repo, ".git"@);
    if name.len() == 0 || owner.len() == 0 {
        None
    } else {
        Some(RepoView { owner, name, url: github_url(owner, name), via: None })
    }
}

/// `owner/repo` shorthand: exactly two non-empty segments once outer slashes are trimmed.
pub open spec fn owner_repo_spec(x: Seq<char>) -> Option<RepoView> {
    let y = trim_char(x, '/');
    match index_of(y, '/') {
        None => None,
        Some(k) => {
            let owner = trim(y.subrange(0, k));
            let rest = y.subrange(k + 1, y.len() as int);
            if rest.contains('/') {
                None
            } else {
                let repo = trim(rest);
                if owner.len() == 0 || repo.len() == 0 {
                    None
                } else {
                    build_spec(owner, repo)
                }
            }
        }
    }
}

/// The parts of an absolute URL that identify a repository.
pub struct UrlParts {
    pub scheme: String,
    pub host: Option<String>,
    pub segments: Option<Vec<String>>,
}

pub open spec fn strings_view(v: Seq<String>) -> Seq<Seq<char>> {
    v.map_values(|x: String| x@)
}

pub open spec fn url_parts_view(p: UrlParts) -> (Seq<char>, Option<Seq<char>>, Option<Seq<Seq<char>>>) {
    (
        p.scheme@,
        opt_str_view(p.host),
        match p.segments {
            Some(v) => Some(strings_view(v@)),
            None => None,
        },
    )
}

/// What `url::Url::parse` makes of a string: scheme, host and path segments, or
/// nothing when the string is not an absolute URL.
pub uninterp spec fn url_parse_of(s: Seq<char>) -> Option<(Seq<char>, Option<Seq<char>>, Option<Seq<Seq<char>>>)>;

/// Relies on `url::Url::parse` with `Url::scheme`, `Url::host_str` and
/// `Url::path_segments`: the parts of an absolute URL, or nothing on a parse error.
#[verifier::external_body]
pub(crate) fn parse_url(s: &str) -> (r: Option<UrlParts>)
    ensures
        match r {
            Some(p) => url_parse_of(s@) == Some(url_parts_view(p)),
            None => url_parse_of(s@) is None,
        },
{
    match url::Url::parse(s) {
        Ok(u) => {
            let segments = u.path_segments().map(|it| it.map(String::from).collect());
            let host = u.host_str().map(String::from);
            Some(UrlParts { scheme: u.scheme().to_string(), host, segments })
        },
        Err(_) => None,
    }
}

/// The non-empty segments of `s`, in order.
pub open spec fn nonempty_segments(s: Seq<Seq<char>>) -> Seq<Seq<char>>
    decreases s.len(),
{
    if s.len() == 0 {
        seq![]
    } else if s.last().len() > 0 {
        nonempty_segments(s.drop_last()).push(s.last())
    } else {
        nonempty_segments(s.drop_last())
    }
}

/// The repository a parsed URL names: none for `file` URLs or hosts other than
/// `github.com`; else the first two non-empty path segments.
pub open spec fn url_repo_spec(p: (Seq<char>, Option<Seq<char>>, Option<Seq<Seq<char>>>)) -> Option<
    RepoView,
> {
    if p.0 == "file"@ {
        None
    } else if p.1 == Some("github.com"@) {
        match p.2 {
            Some(segs) => {
                let ne = nonempty_segments(segs);
                if ne.len() >= 2 {
                    build_spec(ne[0], ne[1])
                } else {
                    None
                }
            },
            None => None,
        }
    } else {
        None
    }
}

/// The repository that a free-form reference names, if it names one.
pub open spec fn parse_spec(input: Seq<char>) -> Option<RepoView> {
    let t = trim(input);
    if t.len() == 0 {
        None
    } else if has_prefix(t, "github:"@) {
        owner_repo_spec(trim(t.subrange("github:"@.len() as int, t.len() as int)))
    } else if has_prefix(t, "git@github.com:"@) {
        owner_repo_spec(t.subrange("git@github.com:"@.len() as int, t.len() as int))
    } else {
        let w = if has_prefix(t, "git+"@) {
            t.subrange("git+"@.len() as int, t.len() as int)
        } else {
            t
        };
        if !w.contains(':') {
            owner_repo_spec(w)
        } else {
            match url_parse_of(w) {
                Some(p) => url_repo_spec(p),
                None => owner_repo_spec(w),
            }
        }
    }
}

/// `s` without any trailing `.git` suffixes.
#[verifier::spinoff_prover]
pub fn strip_git_suffix(s: &str) -> (r: &str)
    ensures
        r@ == strip_suffix_all(s@, ".git"@),
{
    let c = chars_of(s);
    let g = chars_of(".git");
    let mut end: usize = c.len();
    assert(c@.subrange(0, end as int) =~= s@);
    while g.len() > 0 && end >= g.len() && occurs_at_exec(&c, &g, end - g.len())
        invariant
            end <= c@.len(),
            c@ == s@,
            g@ == ".git"@,
            strip_suffix_all(s@, ".git"@) == strip_suffix_all(c@.subrange(0, end as int), ".git"@),
        decreases end,
    {
        let ghost t = c@.subrange(0, end as int);
        assert(t.subrange(t.len() - g@.len(), t.len() as int) =~= c@.subrange(
            end - g@.len(),
            end as int,
        ));
        assert(t.subrange(0, t.len() - g@.len()) =~= c@.subrange(0, end - g@.len()));
        end = end - g.len();
    }
    proof {
        let t = c@.subrange(0, end as int);
        if g@.len() > 0 && end >= g@.len() {
            assert(t.subrange(t.len() - g@.len(), t.len() as int) =~= c@.subrange(
                end - g@.len(),
                end as int,
            ));
        }
    }
    s.substring_char(0, end)
}

/// Builds the record for `owner` and `repo`, dropping any `.git` suffix of `repo`.
#[verifier::spinoff_prover]
pub fn build_repository(owner: &str, repo: &str) -> (r: Option<Repository>)
    ensures
        opt_repo_view(r) == build_spec(owner@, repo@),
{
    let name = strip_git_suffix(repo);
    if name.is_empty() || owner.is_empty() {
        return None;
    }
    let mut url = String::from_str("https://github.com/");
    url.append(owner);
    url.append("/");
    url.append(name);
    Some(Repository { owner: String::from_str(owner), name: String::from_str(name), url, via: None })
}

/// Reads `owner/repo` shorthand.
#[verifier::spinoff_prover]
pub fn parse_owner_repo(input: &str) -> (r: Option<Repository>)
    ensures
        opt_repo_view(r) == owner_repo_spec(input@),
{
    let y = trim_char_str(input, '/');
    let yc = chars_of(y);
    match index_of_exec(&yc, '/') {
        None => None,
        Some(k) => {
            assert(k < yc.len());
            let owner = trim_str(y.substring_char(0, k));
            let rest = y.substring_char(k + 1, yc.len());
            let rc = chars_of(rest);
            if contains_char(&rc, '/') {
                return None;
            }
            let repo = trim_str(rest);
            if owner.is_empty() || repo.is_empty() {
                return None;
            }
            build_repository(owner, repo)
        },
    }
}

/// The repository named by a parsed URL.
#[verifier::spinoff_prover]
pub fn repository_from_url(parts: &UrlParts) -> (r: Option<Repository>)
    ensures
        opt_repo_view(r) == url_repo_spec(url_parts_view(*parts)),
{
    if same_str(parts.scheme.as_str(), "file") {
        return None;
    }
    match &parts.host {
        Some(h) => {
            if !same_str(h.as_str(), "github.com") {
                return None;
            }
        },
        None => {
            return None;
        },
    }
    match &parts.segments {
        None => None,
        Some(segs) => {
            let mut ne: Vec<String> = Vec::new();
            let mut i: usize = 0;
            while i < segs.len()
                invariant
                    i <= segs@.len(),
                    strings_view(ne@) == nonempty_segments(strings_view(segs@.subrange(0, i as int))),
                decreases segs@.len() - i,
            {
                let ghost before = strings_view(segs@.subrange(0, i as int));
                assert(strings_view(segs@.subrange(0, i + 1)).drop_last() =~= before);
                let ghost prev = ne@;
                if !segs[i].as_str().is_empty() {
                    ne.push(segs[i].clone());
                    assert(strings_view(ne@) =~= strings_view(prev).push(segs@[i as int]@));
                }
                i = i + 1;
            }
            assert(segs@.subrange(0, segs@.len() as int) =~= segs@);
            if ne.len() < 2 {
                return None;
            }
            build_repository(ne[0].as_str(), ne[1].as_str())
        },
    }
}

/// Recognises a GitHub repository in a free-form reference: `github:owner/repo`,
/// `git@github.com:owner/repo(.git)`, an absolute URL on the host `github.com`
/// (after any `git+` prefix), or bare `owner/repo`.
#[verifier::spinoff_prover]
pub fn parse_github_repository(input: &str) -> (r: Option<Repository>)
    ensures
        opt_repo_view(r) == parse_spec(input@),
{
    let t = trim_str(input);
    if t.is_empty() {
        return None;
    }
    if let Some(rest) = strip_prefix(t, "github:") {
        return parse_owner_repo(trim_str(rest));
    }
    if let Some(rest) = strip_prefix(t, "git@github.com:") {
        return parse_owner_repo(rest);
    }
    let w = match strip_prefix(t, "git+") {
        Some(rest) => rest,
        None => t,
    };
    // Without a `:` there is no scheme, so `w` cannot be an absolute URL.
    let wc = chars_of(w);
    if !contains_char(&wc, ':') {
        return parse_owner_repo(w);
    }
    match parse_url(w) {
        Some(parts) => repository_from_url(&parts),
        None => parse_owner_repo(w),
    }
}

/// A supported package-manager ecosystem.
#[derive(Debug, Clone, Copy, PartialEq, Eq, Structural)]
pub enum Framework {
    Node,
    Deno,
    Cargo,
    Go,
    Dart,
    Composer,
    Ruby,
    Python,
    Gradle,
    Maven,
    Renv,
    Haskell,
}

/// A file name whose extension is `cabal`, in any ASCII case.
pub open spec fn is_cabal_name(n: Seq<char>) -> bool {
    n.len() >= 7 && n[n.len() - 6] == '.' && eq_ignore_ascii_case(
        n.subrange(n.len() - 5, n.len() as int),
        "cabal"@,
    )
}

pub open spec fn has_cabal_file(files: Seq<Seq<char>>) -> bool {
    exists|i: int| 0 <= i < files.len() && is_cabal_name(#[trigger] files[i])
}

pub open spec fn marker(present: bool, f: Framework) -> Seq<Framework> {
    if present {
        seq![f]
    } else {
        seq![]
    }
}

/// The ecosystems whose marker files stand in a project root, in a fixed order;
/// `entries` names what the root holds, `files` the regular files among them.
pub open spec fn frameworks_spec(entries: Seq<Seq<char>>, files: Seq<Seq<char>>) -> Seq<Framework> {
    let e = |n: Seq<char>| entries.contains(n);
    marker(e("package.json"@), Framework::Node) + marker(
        e("deno.lock"@) || e("deno.json"@) || e("deno.jsonc"@) || e("jsr.json"@),
        Framework::Deno,
    ) + marker(e("Cargo.toml"@), Framework::Cargo) + marker(e("go.mod"@), Framework::Go)
        + marker(e("pubspec.yaml"@), Framework::Dart) + marker(
        e("composer.lock"@) || e("composer.json"@),
        Framework::Composer,
    ) + marker(e("Gemfile"@) || e("Gemfile.lock"@), Framework::Ruby) + marker(
        e("pyproject.toml"@) || e("requirements.txt"@) || e("Pipfile"@) || e("Pipfile.lock"@) || e(
            "uv.lock"@,
        ),
        Framework::Python,
    ) + marker(
        e("gradle.lockfile"@) || e("build.gradle"@) || e("build.gradle.kts"@),
        Framework::Gradle,
    ) + marker(e("pom.xml"@), Framework::Maven) + marker(e("renv.lock"@), Framework::Renv)
        + marker(
        e("package.yaml"@) || e("stack.yaml"@) || e("cabal.project"@) || has_cabal_file(files),
        Framework::Haskell,
    )
}

/// Whether `name` is among `entries`.
#[verifier::spinoff_prover]
pub fn has_entry(entries: &Vec<String>, name: &str) -> (r: bool)
    ensures
        r == strings_view(entries@).contains(name@),
{
    let mut i: usize = 0;
    while i < entries.len()
        invariant
            i <= entries@.len(),
            forall|j: int| 0 <= j < i ==> entries@[j]@ != name@,
        decreases entries@.len() - i,
    {
        if same_str(entries[i].as_str(), name) {
            assert(strings_view(entries@)[i as int] == name@);
            return true;
        }
        i = i + 1;
    }
    proof {
        if strings_view(entries@).contains(name@) {
            let j = choose|j: int| 0 <= j < entries@.len() && strings_view(entries@)[j] == name@;
            assert(entries@[j]@ == name@);
        }
    }
    false
}

/// Whether `name` has the extension `cabal`, in any ASCII case.
#[verifier::spinoff_prover]
pub fn is_cabal_file_name(name: &str) -> (r: bool)
    ensures
        r == is_cabal_name(name@),
{
    let c = chars_of(name);
    let n = c.len();
    if n < 7 || c[n - 6] != '.' {
        return false;
    }
    let ext = chars_of(name.substring_char(n - 5, n));
    let cabal = chars_of("cabal");
    eq_ignore_ascii_case_exec(&ext, &cabal)
}

/// Whether one of `files` is a Cabal package description.
#[verifier::spinoff_prover]
pub fn contains_cabal_file(files: &Vec<String>) -> (r: bool)
    ensures
        r == has_cabal_file(strings_view(files@)),
{
    let mut i: usize = 0;
    while i < files.len()
        invariant
            i <= files@.len(),
            forall|j: int| 0 <= j < i ==> !is_cabal_name(files@[j]@),
        decreases files@.len() - i,
    {
        if is_cabal_file_name(files[i].as_str()) {
            assert(is_cabal_name(strings_view(files@)[i as int]));
            return true;
        }
        i = i + 1;
    }
    proof {
        if has_cabal_file(strings_view(files@)) {
            let j = choose|j: int| 0 <= j < files@.len() && is_cabal_name(#[trigger] strings_view(files@)[j]);
            assert(is_cabal_name(files@[j]@));
        }
    }
    false
}

#[verifier::spinoff_prover]
fn push_if(out: &mut Vec<Framework>, present: bool, f: Framework)
    ensures
        final(out)@ == old(out)@ + marker(present, f),
{
    if present {
        out.push(f);
    }
    assert(final(out)@ =~= old(out)@ + marker(present, f));
}

/// The ecosystems present in a project root, in a fixed order. `entries` names
/// everything the root holds; `files` names the regular files among them.
#[verifier::spinoff_prover]
#[verifier::rlimit(40)]
pub fn detect_frameworks(entries: &Vec<String>, files: &Vec<String>) -> (r: Vec<Framework>)
    ensures
        r@ == frameworks_spec(strings_view(entries@), strings_view(files@)),
{
    let mut out: Vec<Framework> = Vec::new();
    push_if(&mut out, has_entry(entries, "package.json"), Framework::Node);
    push_if(
        &mut out,
        has_entry(entries, "deno.lock") || has_entry(entries, "deno.json") || has_entry(
            entries,
            "deno.jsonc",
        ) || has_entry(entries, "jsr.json"),
        Framework::Deno,
    );
    push_if(&mut out, has_entry(entries, "Cargo.toml"), Framework::Cargo);
    push_if(&mut out, has_entry(entries, "go.mod"), Framework::Go);
    push_if(&mut out, has_entry(entries, "pubspec.yaml"), Framework::Dart);
    push_if(
        &mut out,
        has_entry(entries, "composer.lock") || has_entry(entries, "composer.json"),
        Framework::Composer,
    );
    push_if(
        &mut out,
        has_entry(entries, "Gemfile") || has_entry(entries, "Gemfile.lock"),
        Framework::Ruby,
    );
    push_if(
        &mut out,
        has_entry(entries, "pyproject.toml") || has_entry(entries, "requirements.txt")
            || has_entry(entries, "Pipfile") || has_entry(entries, "Pipfile.lock") || has_entry(
            entries,
            "uv.lock",
        ),
        Framework::Python,
    );
    push_if(
        &mut out,
        has_entry(entries, "gradle.lockfile") || has_entry(entries, "build.gradle") || has_entry(
            entries,
            "build.gradle.kts",
        ),
        Framework::Gradle,
    );
    push_if(&mut out, has_entry(entries, "pom.xml"), Framework::Maven);
    push_if(&mut out, has_entry(entries, "renv.lock"), Framework::Renv);
    push_if(
        &mut out,
        has_entry(entries, "package.yaml") || has_entry(entries, "stack.yaml") || has_entry(
            entries,
            "cabal.project",
        ) || contains_cabal_file(files),
        Framework::Haskell,
    );
    assert(out@ =~= frameworks_spec(strings_view(entries@), strings_view(files@)));
    out
}

/// A character GitHub allows in owner and repository names.
pub open spec fn is_name_char(c: char) -> bool {
    ('a' <= c && c <= 'z') || ('A' <= c && c <= 'Z') || ('0' <= c && c <= '9') || c == '-' || c
        == '_' || c == '.'
}

/// A non-empty GitHub owner name.
pub open spec fn is_owner_name(s: Seq<char>) -> bool {
    s.len() > 0 && forall|i: int| 0 <= i < s.len() ==> is_name_char(#[trigger] s[i])
}

/// A non-empty GitHub repository name that does not itself end in `.git`.
pub open spec fn is_repo_name(s: Seq<char>) -> bool {
    is_owner_name(s) && !(s.len() >= 4 && s.subrange(s.len() - 4, s.len() as int) == ".git"@)
}

/// The record that names `owner/repo`, with no provenance.
pub open spec fn named_repo(owner: Seq<char>, repo: Seq<char>) -> RepoView {
    RepoView { owner, name: repo, url: github_url(owner, repo), via: None }
}

proof fn lemma_name_has_no_specials(s: Seq<char>)
    requires
        is_owner_name(s),
    ensures
        !s.contains('/'),
        !s.contains(':'),
        !is_ws(s[0]),
        !is_ws(s.last()),
        s[0] != '/',
        s.last() != '/',
{
    assert(is_name_char(s[0]));
    assert(is_name_char(s[s.len() - 1]));
}

proof fn lemma_trims_keep(s: Seq<char>)
    requires
        s.len() > 0,
        !is_ws(s[0]),
        !is_ws(s.last()),
        s[0] != '/',
        s.last() != '/',
    ensures
        trim(s) == s,
        trim_char(s, '/') == s,
{
}

proof fn lemma_strip_git(repo: Seq<char>)
    requires
        is_repo_name(repo),
    ensures
        strip_suffix_all(repo, ".git"@) == repo,
        strip_suffix_all(repo + ".git"@, ".git"@) == repo,
{
    reveal_strlit(".git");
    let x = repo + ".git"@;
    assert(x.subrange(x.len() - 4, x.len() as int) =~= ".git"@);
    assert(x.subrange(0, x.len() - 4) =~= repo);
}

/// `owner/rest` where `owner` holds no slash.
proof fn lemma_shorthand(owner: Seq<char>, repo: Seq<char>, rest: Seq<char>)
    requires
        is_owner_name(owner),
        is_repo_name(repo),
        rest == repo || rest == repo + ".git"@,
    ensures
        owner_repo_spec(owner + "/"@ + rest) == Some(named_repo(owner, repo)),
{
    reveal_strlit("/");
    reveal_strlit(".git");
    lemma_name_has_no_specials(owner);
    lemma_name_has_no_specials(repo);
    lemma_strip_git(repo);
    let x = owner + "/"@ + rest;
    let k = owner.len() as int;
    assert(x[k] == '/');
    assert(x[0] == owner[0]);
    assert(x.last() == rest.last());
    assert(!rest.contains('/')) by {
        if rest.contains('/') {
            let j = choose|j: int| 0 <= j < rest.len() && rest[j] == '/';
            if j < repo.len() {
                assert(repo[j] == '/');
            }
        }
    }
    assert(!is_ws(rest.last()) && rest.last() != '/' && !is_ws(rest[0])) by {
        if rest != repo {
            assert(rest.last() == 't');
        }
        assert(rest[0] == repo[0]);
    }
    lemma_trims_keep(x);
    lemma_trims_keep(rest);
    lemma_trims_keep(owner);
    assert forall|j: int| 0 <= j < k implies x[j] != '/' by {
        assert(x[j] == owner[j]);
    }
    let w = choose|i: int| 0 <= i < x.len() && x[i] == '/' && forall|j: int| 0 <= j < i ==> x[j] != '/';
    assert(w == k) by {
        if w < k {
        } else if w > k {
        }
    }
    assert(x.subrange(0, k) =~= owner);
    assert(x.subrange(k + 1, x.len() as int) =~= rest);
}

proof fn lemma_bare_form(owner: Seq<char>, repo: Seq<char>)
    requires
        is_owner_name(owner),
        is_repo_name(repo),
    ensures
        parse_spec(owner + "/"@ + repo) == Some(named_repo(owner, repo)),
{
    reveal_strlit("/");
    reveal_strlit("github:");
    reveal_strlit("git@github.com:");
    reveal_strlit("git+");
    lemma_name_has_no_specials(owner);
    lemma_name_has_no_specials(repo);
    lemma_shorthand(owner, repo, repo);
    let x = owner + "/"@ + repo;
    assert(x[0] == owner[0] && x.last() == repo.last());
    lemma_trims_keep(x);
    assert(!x.contains(':')) by {
        if x.contains(':') {
            let j = choose|j: int| 0 <= j < x.len() && x[j] == ':';
            if j < owner.len() {
                assert(owner[j] == ':');
            } else if j > owner.len() {
                assert(repo[j - owner.len() - 1] == ':');
            }
        }
    }
    assert(!has_prefix(x, "github:"@)) by {
        if has_prefix(x, "github:"@) {
            assert(x.subrange(0, 7)[6] == ':');
        }
    }
    assert(!has_prefix(x, "git@github.com:"@)) by {
        if has_prefix(x, "git@github.com:"@) {
            assert(x.subrange(0, 15)[14] == ':');
        }
    }
    assert(!has_prefix(x, "git+"@)) by {
        if has_prefix(x, "git+"@) {
            assert(x.subrange(0, 4)[3] == '+');
            assert(x[3] == '+');
            if owner.len() > 3 {
                assert(is_name_char(owner[3]));
            } else if owner.len() < 3 {
                assert(is_name_char(repo[2 - owner.len()]));
            }
        }
    }
}

proof fn lemma_github_form(owner: Seq<char>, repo: Seq<char>)
    requires
        is_owner_name(owner),
        is_repo_name(repo),
    ensures
        parse_spec("github:"@ + owner + "/"@ + repo) == Some(named_repo(owner, repo)),
{
    reveal_strlit("/");
    reveal_strlit("github:");
    lemma_name_has_no_specials(owner);
    lemma_name_has_no_specials(repo);
    lemma_shorthand(owner, repo, repo);
    let x = owner + "/"@ + repo;
    assert(x[0] == owner[0] && x.last() == repo.last());
    lemma_trims_keep(x);
    let g = "github:"@ + owner + "/"@ + repo;
    assert(g[0] == 'g' && g.last() == repo.last());
    lemma_trims_keep(g);
    assert(g.subrange(0, 7) =~= "github:"@);
    assert(g.subrange(7, g.len() as int) =~= x);
}

proof fn lemma_ssh_form(owner: Seq<char>, repo: Seq<char>)
    requires
        is_owner_name(owner),
        is_repo_name(repo),
    ensures
        parse_spec("git@github.com:"@ + owner + "/"@ + repo + ".git"@) == Some(
            named_repo(owner, repo),
        ),
{
    reveal_strlit("/");
    reveal_strlit(".git");
    reveal_strlit("github:");
    reveal_strlit("git@github.com:");
    lemma_shorthand(owner, repo, repo + ".git"@);
    let hx = owner + "/"@ + (repo + ".git"@);
    let h = "git@github.com:"@ + hx;
    assert(h =~= "git@github.com:"@ + owner + "/"@ + repo + ".git"@);
    assert(h[0] == 'g');
    assert(h.last() == 't');
    lemma_trims_keep(h);
    assert(h.subrange(0, 15) =~= "git@github.com:"@);
    assert(!has_prefix(h, "github:"@)) by {
        assert(h.subrange(0, 7)[3] == '@');
    }
    assert(h.subrange(15, h.len() as int) =~= hx);
}

proof fn lemma_url_form(owner: Seq<char>, repo: Seq<char>)
    requires
        is_owner_name(owner),
        is_repo_name(repo),
    ensures
        url_repo_spec(("https"@, Some("github.com"@), Some(seq![owner, repo]))) == Some(
            named_repo(owner, repo),
        ),
        url_repo_spec(("https"@, Some("github.com"@), Some(seq![owner, repo + ".git"@]))) == Some(
            named_repo(owner, repo),
        ),
{
    reveal_strlit(".git");
    reveal_strlit("https");
    reveal_strlit("file");
    lemma_strip_git(repo);
    assert(seq![owner].drop_last() =~= Seq::<Seq<char>>::empty());
    assert(nonempty_segments(Seq::<Seq<char>>::empty()) == Seq::<Seq<char>>::empty());
    assert(nonempty_segments(seq![owner]) =~= seq![owner]);
    assert(seq![owner, repo].drop_last() =~= seq![owner]);
    assert(seq![owner, repo + ".git"@].drop_last() =~= seq![owner]);
    assert("https"@ != "file"@) by {
        assert("https"@.len() != "file"@.len());
    }
}

/// Every supported way of writing `owner/repo` names the same repository, with
/// the canonical URL and no provenance: bare shorthand, `github:` shorthand and
/// the SSH form as whole strings; `https://github.com/owner/repo` and its
/// `git+`/`.git` variant once the URL is split into scheme, host and segments.
pub proof fn lemma_reference_forms(owner: Seq<char>, repo: Seq<char>)
    requires
        is_owner_name(owner),
        is_repo_name(repo),
    ensures
        parse_spec(owner + "/"@ + repo) == Some(named_repo(owner, repo)),
        parse_spec("github:"@ + owner + "/"@ + repo) == Some(named_repo(owner, repo)),
        parse_spec("git@github.com:"@ + owner + "/"@ + repo + ".git"@) == Some(
            named_repo(owner, repo),
        ),
        url_repo_spec(("https"@, Some("github.com"@), Some(seq![owner, repo]))) == Some(
            named_repo(owner, repo),
        ),
        url_repo_spec(("https"@, Some("github.com"@), Some(seq![owner, repo + ".git"@]))) == Some(
            named_repo(owner, repo),
        ),
{
    lemma_bare_form(owner, repo);
    lemma_github_form(owner, repo);
    lemma_ssh_form(owner, repo);
    lemma_url_form(owner, repo);
}

/// The repository that the first recognisable link of `links` names.
pub open spec fn first_repository(links: Seq<Seq<char>>) -> Option<RepoView>
    decreases links.len(),
{
    if links.len() == 0 {
        None
    } else if parse_spec(links[0]) is Some {
        parse_spec(links[0])
    } else {
        first_repository(links.drop_first())
    }
}

/// The repository that the first recognisable link of `links` names.
pub fn first_repository_of(links: &Vec<String>) -> (r: Option<Repository>)
    ensures
        opt_repo_view(r) == first_repository(strings_view(links@)),
{
    let mut i: usize = 0;
    assert(strings_view(links@).subrange(0, links@.len() as int) =~= strings_view(links@));
    while i < links.len()
        invariant
            i <= links@.len(),
            first_repository(strings_view(links@)) == first_repository(
                strings_view(links@).subrange(i as int, links@.len() as int),
            ),
        decreases links@.len() - i,
    {
        let ghost rest = strings_view(links@).subrange(i as int, links@.len() as int);
        assert(rest.drop_first() =~= strings_view(links@).subrange(i + 1, links@.len() as int));
        assert(rest[0] == links@[i as int]@);
        let found = parse_github_repository(links[i].as_str());
        if found.is_some() {
            return found;
        }
        i = i + 1;
    }
    None
}

} // verus!
