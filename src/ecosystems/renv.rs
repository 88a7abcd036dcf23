use vstd::prelude::*;

use crate::discovery::{
    opt_repo_view, parse_github_repository, parse_spec, parse_url, strings_view, strip_git_suffix,
    strip_suffix_all,
    url_parse_of, url_parts_view,
};
use crate::text::{
    chars_of, eq_ignore_ascii_case, eq_ignore_ascii_case_exec, find, find_exec, index_of,
    index_of_exec, same_str, trim, trim_str,
};

verus! {

/// Finds repositories through the `renv.lock` of an R project.
pub struct RenvDiscoverer;

impl RenvDiscoverer {
    #[verifier::spinoff_prover]
    pub fn new() -> RenvDiscoverer {
        RenvDiscoverer
    }
}

/// The fields of one `renv.lock` package entry that locate its sources.
pub struct RenvPackage {
    pub source: Option<String>,
    pub remote_type: Option<String>,
    pub remote_host: Option<String>,
    pub remote_repo: Option<String>,
    pub remote_url: Option<String>,
    pub repository: Option<String>,
    pub remote_owner: Option<String>,
    pub url: Option<String>,
    pub bug_reports: Option<String>,
}

pub open spec fn pair_view(p: Option<(String, String)>) -> Option<(Seq<char>, Seq<char>)> {
    match p {
        Some((a, b)) => Some((a@, b@)),
        None => None,
    }
}

/// A field that equals `github` up to ASCII case.
pub open spec fn says_github(o: Option<String>) -> bool {
    match o {
        Some(v) => eq_ignore_ascii_case(v@, "github"@),
        None => false,
    }
}

/// A field that mentions `github.com`.
pub open spec fn mentions_github(o: Option<String>) -> bool {
    match o {
        Some(v) => find(v@, "github.com"@) is Some,
        None => false,
    }
}

pub open spec fn is_github_source_spec(p: RenvPackage) -> bool {
    says_github(p.remote_type) || says_github(p.source) || mentions_github(p.remote_host)
        || mentions_github(p.remote_url) || mentions_github(p.repository) || mentions_github(p.url)
        || mentions_github(p.bug_reports)
}

/// Owner and name from `RemoteRepo`, with `RemoteUsername` as the owner or
/// else an `owner/name` value.
pub open spec fn remote_fields_spec(p: RenvPackage) -> Option<(Seq<char>, Seq<char>)> {
    match p.remote_repo {
        None => None,
        Some(rr) => {
            let repo = strip_suffix_all(trim(rr@), ".git"@);
            if repo.len() == 0 {
                None
            } else {
                match p.remote_owner {
                    Some(o) => if trim(o@).len() == 0 {
                        None
                    } else {
                        Some((trim(o@), repo))
                    },
                    None => match index_of(repo, '/') {
                        Some(k) => {
                            let a = trim(repo.subrange(0, k));
                            let b = trim(repo.subrange(k + 1, repo.len() as int));
                            if a.len() > 0 && b.len() > 0 {
                                Some((a, b))
                            } else {
                                None
                            }
                        },
                        None => None,
                    },
                }
            }
        },
    }
}

/// Owner and name from a URL: any GitHub reference, an `api.github.com/repos/`
/// address, or a `codeload.github.com` or `github.com` address read segment by
/// segment.
pub open spec fn url_owner_repo_spec(input: Seq<char>) -> Option<(Seq<char>, Seq<char>)> {
    match parse_spec(input) {
        Some(r) => Some((r.owner, r.name)),
        None => match url_parse_of(input) {
            None => None,
            Some(p) => match (p.1, p.2) {
                (Some(h), Some(segs)) => if h == "api.github.com"@ {
                    if segs.len() >= 3 && segs[0] == "repos"@ {
                        Some((segs[1], segs[2]))
                    } else {
                        None
                    }
                } else if h == "codeload.github.com"@ || h == "github.com"@ {
                    if segs.len() >= 2 {
                        Some((segs[0], strip_suffix_all(segs[1], ".git"@)))
                    } else {
                        None
                    }
                } else {
                    None
                },
                _ => None,
            },
        },
    }
}

/// Index of the first `,` or `;` in `s`, if any.
pub open spec fn sep_index(s: Seq<char>) -> Option<int> {
    if exists|i: int| 0 <= i < s.len() && (s[i] == ',' || s[i] == ';') {
        Some(
            choose|i: int|
                0 <= i < s.len() && (s[i] == ',' || s[i] == ';') && forall|j: int|
                    0 <= j < i ==> !(s[j] == ',' || s[j] == ';'),
        )
    } else {
        None
    }
}

/// The first owner and name that a `,`- or `;`-separated list of URLs yields.
pub open spec fn first_listed_spec(s: Seq<char>) -> Option<(Seq<char>, Seq<char>)>
    decreases s.len(),
{
    let (part, rest) = match sep_index(s) {
        Some(k) => (s.subrange(0, k), Some(s.subrange(k + 1, s.len() as int))),
        None => (s, None),
    };
    let t = trim(part);
    let found = if t.len() == 0 {
        None
    } else {
        url_owner_repo_spec(t)
    };
    if found is Some {
        found
    } else {
        match rest {
            Some(r) => if r.len() < s.len() {
                first_listed_spec(r)
            } else {
                None
            },
            None => None,
        }
    }
}

pub open spec fn opt_listed(o: Option<String>) -> Option<(Seq<char>, Seq<char>)> {
    match o {
        Some(v) => first_listed_spec(v@),
        None => None,
    }
}

/// Where a package's sources live on GitHub: from its remote fields, else from
/// `RemoteUrl` (or `Repository`), else from the first usable entry of `URL`
/// and then `BugReports`.
pub open spec fn github_owner_repo_spec(p: RenvPackage) -> Option<(Seq<char>, Seq<char>)> {
    if !is_github_source_spec(p) {
        None
    } else if remote_fields_spec(p) is Some {
        remote_fields_spec(p)
    } else {
        let first = match (if p.remote_url is Some { p.remote_url } else { p.repository }) {
            Some(u) => url_owner_repo_spec(u@),
            None => None,
        };
        if first is Some {
            first
        } else if opt_listed(p.url) is Some {
            opt_listed(p.url)
        } else {
            opt_listed(p.bug_reports)
        }
    }
}

#[verifier::spinoff_prover]
fn says_github_exec(o: &Option<String>) -> (r: bool)
    ensures
        r == says_github(*o),
{
    match o {
        Some(v) => {
            let a = chars_of(v.as_str());
            let b = chars_of("github");
            eq_ignore_ascii_case_exec(&a, &b)
        },
        None => false,
    }
}

#[verifier::spinoff_prover]
fn mentions_github_exec(o: &Option<String>) -> (r: bool)
    ensures
        r == mentions_github(*o),
{
    match o {
        Some(v) => {
            let a = chars_of(v.as_str());
            let b = chars_of("github.com");
            find_exec(&a, &b, 0).is_some()
        },
        None => false,
    }
}

/// Owner and name that a URL gives, if any.
#[verifier::spinoff_prover]
pub fn owner_repo_from_url(input: &str) -> (r: Option<(String, String)>)
    ensures
        pair_view(r) == url_owner_repo_spec(input@),
{
    if let Some(repo) = parse_github_repository(input) {
        return Some((repo.owner, repo.name));
    }
    let parts = match parse_url(input) {
        Some(p) => p,
        None => {
            return None;
        },
    };
    let host = match &parts.host {
        Some(h) => h,
        None => {
            return None;
        },
    };
    let segs = match &parts.segments {
        Some(s) => s,
        None => {
            return None;
        },
    };
    assert(strings_view(segs@).len() == segs@.len());
    if same_str(host.as_str(), "api.github.com") {
        if segs.len() >= 3 && same_str(segs[0].as_str(), "repos") {
            assert(strings_view(segs@)[1] == segs@[1]@ && strings_view(segs@)[2] == segs@[2]@);
            return Some((segs[1].clone(), segs[2].clone()));
        }
        return None;
    }
    if same_str(host.as_str(), "codeload.github.com") || same_str(host.as_str(), "github.com") {
        if segs.len() >= 2 {
            assert(strings_view(segs@)[0] == segs@[0]@ && strings_view(segs@)[1] == segs@[1]@);
            return Some((segs[0].clone(), String::from_str(strip_git_suffix(segs[1].as_str()))));
        }
        return None;
    }
    None
}

#[verifier::spinoff_prover]
fn sep_index_exec(c: &Vec<char>) -> (r: Option<usize>)
    ensures
        match r {
            Some(i) => sep_index(c@) == Some(i as int) && i < c@.len(),
            None => sep_index(c@) is None,
        },
{
    let mut i: usize = 0;
    while i < c.len()
        invariant
            i <= c@.len(),
            forall|j: int| 0 <= j < i ==> !(c@[j] == ',' || c@[j] == ';'),
        decreases c@.len() - i,
    {
        if c[i] == ',' || c[i] == ';' {
            proof {
                let w = choose|k: int|
                    0 <= k < c@.len() && (c@[k] == ',' || c@[k] == ';') && forall|j: int|
                        0 <= j < k ==> !(c@[j] == ',' || c@[j] == ';');
                assert(w == i as int) by {
                    if w < i as int {
                    } else if w > i as int {
                        assert(!(c@[i as int] == ',' || c@[i as int] == ';'));
                    }
                }
            }
            return Some(i);
        }
        i = i + 1;
    }
    None
}

/// The first owner and name that a `,`- or `;`-separated list of URLs yields.
#[verifier::spinoff_prover]
pub fn first_listed(s: &str) -> (r: Option<(String, String)>)
    ensures
        pair_view(r) == first_listed_spec(s@),
    decreases s@.len(),
{
    let c = chars_of(s);
    let (part, rest) = match sep_index_exec(&c) {
        Some(k) => {
            assert(k < c.len());
            (s.substring_char(0, k), Some(s.substring_char(k + 1, c.len())))
        },
        None => (s, None),
    };
    let t = trim_str(part);
    if !t.is_empty() {
        let found = owner_repo_from_url(t);
        if found.is_some() {
            return found;
        }
    }
    match rest {
        Some(r) => first_listed(r),
        None => None,
    }
}

#[verifier::spinoff_prover]
fn opt_listed_exec(o: &Option<String>) -> (r: Option<(String, String)>)
    ensures
        pair_view(r) == opt_listed(*o),
{
    match o {
        Some(v) => first_listed(v.as_str()),
        None => None,
    }
}

impl RenvPackage {
    /// Whether the package says it comes from GitHub.
    #[verifier::spinoff_prover]
    pub fn is_github_source(&self) -> (r: bool)
        ensures
            r == is_github_source_spec(*self),
    {
        says_github_exec(&self.remote_type) || says_github_exec(&self.source)
            || mentions_github_exec(&self.remote_host) || mentions_github_exec(&self.remote_url)
            || mentions_github_exec(&self.repository) || mentions_github_exec(&self.url)
            || mentions_github_exec(&self.bug_reports)
    }

    /// Owner and name from the `Remote*` fields.
    #[verifier::spinoff_prover]
    pub fn owner_repo_from_remote_fields(&self) -> (r: Option<(String, String)>)
        ensures
            pair_view(r) == remote_fields_spec(*self),
    {
        let rr = match &self.remote_repo {
            Some(rr) => rr,
            None => {
                return None;
            },
        };
        let repo = String::from_str(strip_git_suffix(trim_str(rr.as_str())));
        if repo.as_str().is_empty() {
            return None;
        }
        match &self.remote_owner {
            Some(o) => {
                let ot = trim_str(o.as_str());
                if ot.is_empty() {
                    return None;
                }
                Some((String::from_str(ot), repo))
            },
            None => {
                let rc = chars_of(repo.as_str());
                match index_of_exec(&rc, '/') {
                    Some(k) => {
                        assert(k < rc.len());
                        let a = trim_str(repo.as_str().substring_char(0, k));
                        let b = trim_str(repo.as_str().substring_char(k + 1, rc.len()));
                        if !a.is_empty() && !b.is_empty() {
                            Some((String::from_str(a), String::from_str(b)))
                        } else {
                            None
                        }
                    },
                    None => None,
                }
            },
        }
    }

    /// Where the package's sources live on GitHub, if it says.
    #[verifier::spinoff_prover]
    pub fn github_owner_repo(&self) -> (r: Option<(String, String)>)
        ensures
            pair_view(r) == github_owner_repo_spec(*self),
    {
        if !self.is_github_source() {
            return None;
        }
        let fields = self.owner_repo_from_remote_fields();
        if fields.is_some() {
            return fields;
        }
        let u = if self.remote_url.is_some() {
            &self.remote_url
        } else {
            &self.repository
        };
        if let Some(v) = u {
            let first = owner_repo_from_url(v.as_str());
            if first.is_some() {
                return first;
            }
        }
        let listed = opt_listed_exec(&self.url);
        if listed.is_some() {
            return listed;
        }
        opt_listed_exec(&self.bug_reports)
    }
}

/// The state of a `renv.lock` read: the owner/name pairs seen and the
/// repositories found so far.
pub open spec fn renv_step(
    st: (Seq<(Seq<char>, Seq<char>)>, Seq<crate::discovery::RepoView>),
    p: RenvPackage,
) -> (Seq<(Seq<char>, Seq<char>)>, Seq<crate::discovery::RepoView>) {
    match github_owner_repo_spec(p) {
        Some(pair) => if st.0.contains(pair) {
            st
        } else {
            (
                st.0.push(pair),
                match parse_spec(crate::discovery::github_url(pair.0, pair.1)) {
                    Some(r) => st.1.push(crate::discovery::RepoView { via: Some("renv.lock"@), ..r }),
                    None => st.1,
                },
            )
        },
        None => st,
    }
}

pub open spec fn renv_fold(packages: Seq<RenvPackage>) -> (
    Seq<(Seq<char>, Seq<char>)>,
    Seq<crate::discovery::RepoView>,
)
    decreases packages.len(),
{
    if packages.len() == 0 {
        (seq![], seq![])
    } else {
        renv_step(renv_fold(packages.drop_last()), packages.last())
    }
}

fn contains_pair(seen: &Vec<(String, String)>, a: &str, b: &str) -> (r: bool)
    ensures
        r == seen@.map_values(|q: (String, String)| (q.0@, q.1@)).contains((a@, b@)),
{
    let ghost v = seen@.map_values(|q: (String, String)| (q.0@, q.1@));
    let mut i: usize = 0;
    while i < seen.len()
        invariant
            v == seen@.map_values(|q: (String, String)| (q.0@, q.1@)),
            i <= seen@.len(),
            forall|j: int| 0 <= j < i ==> v[j] != (a@, b@),
        decreases seen@.len() - i,
    {
        if same_str(seen[i].0.as_str(), a) && same_str(seen[i].1.as_str(), b) {
            assert(v[i as int] == (a@, b@));
            return true;
        }
        i = i + 1;
    }
    false
}

/// The repositories that the packages of a `renv.lock` come from, in order,
/// each owner/name pair once, labelled `renv.lock`.
pub fn renv_repositories(packages: &Vec<RenvPackage>) -> (r: Vec<crate::discovery::Repository>)
    ensures
        crate::reconcile::repos_view(r@) == renv_fold(packages@).1,
{
    let mut seen: Vec<(String, String)> = Vec::new();
    let mut out: Vec<crate::discovery::Repository> = Vec::new();
    let mut i: usize = 0;
    assert(seen@.map_values(|q: (String, String)| (q.0@, q.1@)) =~= renv_fold(packages@.subrange(0, 0)).0);
    assert(crate::reconcile::repos_view(out@) =~= renv_fold(packages@.subrange(0, 0)).1);
    while i < packages.len()
        invariant
            i <= packages@.len(),
            seen@.map_values(|q: (String, String)| (q.0@, q.1@)) == renv_fold(
                packages@.subrange(0, i as int),
            ).0,
            crate::reconcile::repos_view(out@) == renv_fold(packages@.subrange(0, i as int)).1,
        decreases packages@.len() - i,
    {
        let ghost pre = packages@.subrange(0, i + 1);
        assert(pre.drop_last() =~= packages@.subrange(0, i as int));
        let ghost sv = seen@.map_values(|q: (String, String)| (q.0@, q.1@));
        let ghost ov = crate::reconcile::repos_view(out@);
        match packages[i].github_owner_repo() {
            Some((owner, name)) => {
                if !contains_pair(&seen, owner.as_str(), name.as_str()) {
                    let mut url = String::from_str("https://github.com/");
                    url.append(owner.as_str());
                    url.append("/");
                    url.append(name.as_str());
                    match parse_github_repository(url.as_str()) {
                        Some(repository) => {
                            out.push(repository.with_via("renv.lock"));
                            assert(crate::reconcile::repos_view(out@) =~= ov.push(out@.last()@));
                        },
                        None => {},
                    }
                    seen.push((owner, name));
                    assert(seen@.map_values(|q: (String, String)| (q.0@, q.1@)) =~= sv.push(
                        (seen@.last().0@, seen@.last().1@),
                    ));
                }
            },
            None => {},
        }
        i = i + 1;
    }
    assert(packages@.subrange(0, packages@.len() as int) =~= packages@);
    out
}

} // verus!
