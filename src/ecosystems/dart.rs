use vstd::prelude::*;

use crate::candidates::{candidate_list, opt_seq, CandidateUrls};
use crate::discovery::{opt_str_view, strings_view};
use crate::json::{lookup, lookup_exec, member, member_exec, Json};

verus! {

/// What pub.dev tells of the latest pubspec of a package.
pub struct PubDevPackage {
    pub repository: Option<String>,
    pub homepage: Option<String>,
    pub issue_tracker: Option<String>,
    pub documentation: Option<String>,
}

/// The links of a pubspec in the order they are tried: repository, home page,
/// issue tracker, documentation.
pub open spec fn pubdev_values(p: PubDevPackage) -> Seq<Seq<char>> {
    opt_seq(opt_str_view(p.repository)) + opt_seq(opt_str_view(p.homepage)) + opt_seq(
        opt_str_view(p.issue_tracker),
    ) + opt_seq(opt_str_view(p.documentation))
}

impl PubDevPackage {
    /// The package's candidate repository URLs: trimmed, non-blank, each once
    /// up to case.
    #[verifier::spinoff_prover]
    pub fn candidate_urls(&self) -> (r: Vec<String>)
        ensures
            strings_view(r@) == candidate_list(pubdev_values(*self)),
    {
        let mut c = CandidateUrls::new();
        let ghost v: Seq<Seq<char>> = seq![];
        c.add_present(&self.repository, Ghost(v));
        proof { v = v + opt_seq(opt_str_view(self.repository)); }
        c.add_present(&self.homepage, Ghost(v));
        proof { v = v + opt_seq(opt_str_view(self.homepage)); }
        c.add_present(&self.issue_tracker, Ghost(v));
        proof { v = v + opt_seq(opt_str_view(self.issue_tracker)); }
        c.add_present(&self.documentation, Ghost(v));
        proof { v = v + opt_seq(opt_str_view(self.documentation)); }
        assert(v =~= pubdev_values(*self));
        c.into_urls()
    }
}

/// The repository address a `git` dependency gives: the string itself, or the
/// `url` of a table.
pub open spec fn git_of(o: Option<Json>) -> Option<Seq<char>> {
    match o {
        Some(Json::Str(u)) => Some(u@),
        Some(Json::Object(m)) => match lookup(m@, "url"@) {
            Some(Json::Str(u)) => Some(u@),
            _ => None,
        },
        _ => None,
    }
}

/// The address of a dependency fetched from git, if it is one.
pub open spec fn git_dependency(details: Json) -> Option<Seq<char>> {
    match details {
        Json::Object(m) => git_of(lookup(m@, "git"@)),
        _ => None,
    }
}

/// A dependency resolved through pub.dev: not from git, an SDK or a path.
pub open spec fn is_hosted(details: Json) -> bool {
    match details {
        Json::Object(m) => git_of(lookup(m@, "git"@)) is None && lookup(m@, "sdk"@) is None
            && lookup(m@, "path"@) is None,
        _ => true,
    }
}

/// The names of the hosted dependencies of one section, in order.
pub open spec fn hosted_names(entries: Seq<(String, Json)>) -> Seq<Seq<char>>
    decreases entries.len(),
{
    if entries.len() == 0 {
        seq![]
    } else {
        hosted_names(entries.drop_last()) + if is_hosted(entries.last().1) {
            seq![entries.last().0@]
        } else {
            seq![]
        }
    }
}

/// The git addresses of the dependencies of one section, in order.
pub open spec fn git_addresses(entries: Seq<(String, Json)>) -> Seq<Seq<char>>
    decreases entries.len(),
{
    if entries.len() == 0 {
        seq![]
    } else {
        git_addresses(entries.drop_last()) + opt_seq(git_dependency(entries.last().1))
    }
}

pub open spec fn section_entries(doc: Json, key: Seq<char>) -> Seq<(String, Json)> {
    match member(doc, key) {
        Some(Json::Object(entries)) => entries@,
        _ => seq![],
    }
}

/// What a pubspec depends on: hosted package names and git addresses, from
/// `dependencies`, `dev_dependencies` and `dependency_overrides` in turn.
pub struct PubspecDependencies {
    pub hosted: Vec<String>,
    pub git_urls: Vec<String>,
}

pub open spec fn pubspec_hosted(doc: Json) -> Seq<Seq<char>> {
    hosted_names(section_entries(doc, "dependencies"@)) + hosted_names(
        section_entries(doc, "dev_dependencies"@),
    ) + hosted_names(section_entries(doc, "dependency_overrides"@))
}

pub open spec fn pubspec_git(doc: Json) -> Seq<Seq<char>> {
    git_addresses(section_entries(doc, "dependencies"@)) + git_addresses(
        section_entries(doc, "dev_dependencies"@),
    ) + git_addresses(section_entries(doc, "dependency_overrides"@))
}

#[verifier::spinoff_prover]
fn git_of_exec(o: Option<&Json>) -> (r: Option<String>)
    ensures
        opt_str_view(r) == git_of(crate::ecosystems::python::deref_opt(o)),
{
    match o {
        Some(Json::Str(u)) => Some(u.clone()),
        Some(Json::Object(m)) => match lookup_exec(m, "url") {
            Some(Json::Str(u)) => Some(u.clone()),
            _ => None,
        },
        _ => None,
    }
}

#[verifier::spinoff_prover]
fn collect_section(doc: &Json, key: &str, hosted: &mut Vec<String>, git_urls: &mut Vec<String>)
    ensures
        strings_view(final(hosted)@) == strings_view(old(hosted)@) + hosted_names(
            section_entries(*doc, key@),
        ),
        strings_view(final(git_urls)@) == strings_view(old(git_urls)@) + git_addresses(
            section_entries(*doc, key@),
        ),
{
    let ghost hb = strings_view(hosted@);
    let ghost gb = strings_view(git_urls@);
    match member_exec(doc, key) {
        Some(Json::Object(entries)) => {
            let mut i: usize = 0;
            assert(strings_view(hosted@) =~= hb + hosted_names(entries@.subrange(0, 0)));
            assert(strings_view(git_urls@) =~= gb + git_addresses(entries@.subrange(0, 0)));
            while i < entries.len()
                invariant
                    i <= entries@.len(),
                    strings_view(hosted@) == hb + hosted_names(entries@.subrange(0, i as int)),
                    strings_view(git_urls@) == gb + git_addresses(entries@.subrange(0, i as int)),
                decreases entries@.len() - i,
            {
                let ghost pre = entries@.subrange(0, i + 1);
                assert(pre.drop_last() =~= entries@.subrange(0, i as int));
                let ghost h0 = strings_view(hosted@);
                let ghost g0 = strings_view(git_urls@);
                let details = &entries[i].1;
                let git = match details {
                    Json::Object(m) => git_of_exec(lookup_exec(m, "git")),
                    _ => None,
                };
                let hosted_here = match details {
                    Json::Object(m) => git.is_none() && lookup_exec(m, "sdk").is_none()
                        && lookup_exec(m, "path").is_none(),
                    _ => true,
                };
                match git {
                    Some(u) => {
                        git_urls.push(u);
                        assert(strings_view(git_urls@) =~= g0 + seq![git_urls@.last()@]);
                    },
                    None => {
                        assert(strings_view(git_urls@) =~= g0 + Seq::<Seq<char>>::empty());
                    },
                }
                if hosted_here {
                    hosted.push(entries[i].0.clone());
                    assert(strings_view(hosted@) =~= h0 + seq![entries@[i as int].0@]);
                } else {
                    assert(strings_view(hosted@) =~= h0 + Seq::<Seq<char>>::empty());
                }
                assert(strings_view(hosted@) =~= hb + hosted_names(pre));
                assert(strings_view(git_urls@) =~= gb + git_addresses(pre));
                i = i + 1;
            }
            assert(entries@.subrange(0, entries@.len() as int) =~= entries@);
        },
        _ => {
            assert(strings_view(hosted@) =~= hb + Seq::<Seq<char>>::empty());
            assert(strings_view(git_urls@) =~= gb + Seq::<Seq<char>>::empty());
        },
    }
}

/// The dependencies a pubspec declares.
#[verifier::spinoff_prover]
pub fn pubspec_dependencies(doc: &Json) -> (r: PubspecDependencies)
    ensures
        strings_view(r.hosted@) == pubspec_hosted(*doc),
        strings_view(r.git_urls@) == pubspec_git(*doc),
{
    let mut hosted: Vec<String> = Vec::new();
    let mut git_urls: Vec<String> = Vec::new();
    assert(strings_view(hosted@) =~= Seq::<Seq<char>>::empty());
    assert(strings_view(git_urls@) =~= Seq::<Seq<char>>::empty());
    collect_section(doc, "dependencies", &mut hosted, &mut git_urls);
    collect_section(doc, "dev_dependencies", &mut hosted, &mut git_urls);
    collect_section(doc, "dependency_overrides", &mut hosted, &mut git_urls);
    assert(strings_view(hosted@) =~= pubspec_hosted(*doc));
    assert(strings_view(git_urls@) =~= pubspec_git(*doc));
    PubspecDependencies { hosted, git_urls }
}

} // verus!
