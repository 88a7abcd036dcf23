use vstd::prelude::*;

use crate::candidates::{opt_seq, push_present};
use crate::discovery::{
    first_repository, first_repository_of, opt_str_view, strings_view, RepoView, Repository,
};
use crate::reconcile::{dedup_repositories, dedup_spec, repos_view};

verus! {

/// Finds repositories through the `composer.lock` of a PHP project.
pub struct ComposerDiscoverer;

impl ComposerDiscoverer {
    #[verifier::spinoff_prover]
    pub fn new() -> ComposerDiscoverer {
        ComposerDiscoverer
    }
}

/// The links of one locked Composer package.
pub struct ComposerPackage {
    pub source_url: Option<String>,
    pub support_source: Option<String>,
    pub homepage: Option<String>,
}

/// The links of a package in the order they are tried: source, support
/// source, home page.
pub open spec fn composer_values(p: ComposerPackage) -> Seq<Seq<char>> {
    opt_seq(opt_str_view(p.source_url)) + opt_seq(opt_str_view(p.support_source)) + opt_seq(
        opt_str_view(p.homepage),
    )
}

impl ComposerPackage {
    /// The package's links that are present, in the order they are tried.
    #[verifier::spinoff_prover]
    pub fn candidate_urls(&self) -> (r: Vec<String>)
        ensures
            strings_view(r@) == composer_values(*self),
    {
        let mut urls: Vec<String> = Vec::new();
        push_present(&mut urls, &self.source_url);
        push_present(&mut urls, &self.support_source);
        push_present(&mut urls, &self.homepage);
        assert(strings_view(urls@) =~= composer_values(*self));
        urls
    }
}

/// Each package's first recognisable repository, labelled `composer.lock`.
pub open spec fn package_repositories(packages: Seq<ComposerPackage>) -> Seq<RepoView>
    decreases packages.len(),
{
    if packages.len() == 0 {
        seq![]
    } else {
        package_repositories(packages.drop_last()) + match first_repository(
            composer_values(packages.last()),
        ) {
            Some(r) => seq![RepoView { via: Some("composer.lock"@), ..r }],
            None => seq![],
        }
    }
}

/// The repositories of the locked packages: each package's first
/// recognisable link, labelled `composer.lock`, each repository once.
pub fn composer_repositories(packages: &Vec<ComposerPackage>) -> (r: Vec<Repository>)
    ensures
        repos_view(r@) == dedup_spec(package_repositories(packages@)),
{
    let mut found: Vec<Repository> = Vec::new();
    let mut i: usize = 0;
    assert(repos_view(found@) =~= package_repositories(packages@.subrange(0, 0)));
    while i < packages.len()
        invariant
            i <= packages@.len(),
            repos_view(found@) == package_repositories(packages@.subrange(0, i as int)),
        decreases packages@.len() - i,
    {
        let ghost pre = packages@.subrange(0, i + 1);
        assert(pre.drop_last() =~= packages@.subrange(0, i as int));
        let ghost before = repos_view(found@);
        match first_repository_of(&packages[i].candidate_urls()) {
            Some(repository) => {
                found.push(repository.with_via("composer.lock"));
                assert(repos_view(found@) =~= before + seq![found@.last()@]);
            },
            None => {
                assert(repos_view(found@) =~= before + Seq::<RepoView>::empty());
            },
        }
        i = i + 1;
    }
    assert(packages@.subrange(0, packages@.len() as int) =~= packages@);
    dedup_repositories(&found)
}

} // verus!
