use vstd::prelude::*;

use crate::discovery::{identity, RepoView, Repository};

verus! {

pub open spec fn repos_view(v: Seq<Repository>) -> Seq<RepoView> {
    v.map_values(|r: Repository| r@)
}

/// Whether some record of `xs` has the identity `k`.
pub open spec fn id_seen(xs: Seq<RepoView>, k: (Seq<char>, Seq<char>)) -> bool {
    exists|j: int| 0 <= j < xs.len() && identity(#[trigger] xs[j]) == k
}

/// The first record of each identity, in order of first appearance.
pub open spec fn dedup_spec(xs: Seq<RepoView>) -> Seq<RepoView>
    decreases xs.len(),
{
    if xs.len() == 0 {
        seq![]
    } else {
        let prev = dedup_spec(xs.drop_last());
        if id_seen(xs.drop_last(), identity(xs.last())) {
            prev
        } else {
            prev.push(xs.last())
        }
    }
}

/// No two records share an identity.
pub open spec fn unique_ids(u: Seq<RepoView>) -> bool {
    forall|i: int, j: int|
        0 <= i < j < u.len() ==> identity(#[trigger] u[i]) != identity(#[trigger] u[j])
}

proof fn lemma_seen_push(s: Seq<RepoView>, x: RepoView, k: (Seq<char>, Seq<char>))
    ensures
        id_seen(s.push(x), k) == (id_seen(s, k) || identity(x) == k),
{
    let t = s.push(x);
    if id_seen(t, k) {
        let j = choose|j: int| 0 <= j < t.len() && identity(#[trigger] t[j]) == k;
        if j < s.len() {
            assert(identity(s[j]) == k);
        }
    }
    if id_seen(s, k) {
        let j = choose|j: int| 0 <= j < s.len() && identity(#[trigger] s[j]) == k;
        assert(identity(t[j]) == k);
    }
    if identity(x) == k {
        assert(identity(t[s.len() as int]) == k);
    }
}

/// Deduplicating keeps exactly the identities of its input.
pub proof fn lemma_dedup_ids(xs: Seq<RepoView>, k: (Seq<char>, Seq<char>))
    ensures
        id_seen(dedup_spec(xs), k) == id_seen(xs, k),
    decreases xs.len(),
{
    if xs.len() > 0 {
        let init = xs.drop_last();
        let last = xs.last();
        assert(init.push(last) =~= xs);
        lemma_dedup_ids(init, k);
        lemma_seen_push(init, last, k);
        if id_seen(init, identity(last)) {
            if identity(last) == k {
            }
        } else {
            lemma_seen_push(dedup_spec(init), last, k);
        }
    }
}

/// Deduplicating leaves no two records with one identity.
pub proof fn lemma_dedup_unique(xs: Seq<RepoView>)
    ensures
        unique_ids(dedup_spec(xs)),
    decreases xs.len(),
{
    if xs.len() > 0 {
        let init = xs.drop_last();
        lemma_dedup_unique(init);
        let prev = dedup_spec(init);
        if !id_seen(init, identity(xs.last())) {
            lemma_dedup_ids(init, identity(xs.last()));
            let d = prev.push(xs.last());
            assert forall|i: int, j: int| 0 <= i < j < d.len() implies identity(#[trigger] d[i])
                != identity(#[trigger] d[j]) by {
                if j == prev.len() {
                    assert(d[i] == prev[i]);
                    if identity(prev[i]) == identity(xs.last()) {
                        assert(id_seen(prev, identity(xs.last())));
                    }
                } else {
                    assert(d[i] == prev[i] && d[j] == prev[j]);
                }
            }
        }
    }
}

/// A list without repeated identities is its own deduplication.
pub proof fn lemma_dedup_of_unique(u: Seq<RepoView>)
    requires
        unique_ids(u),
    ensures
        dedup_spec(u) == u,
    decreases u.len(),
{
    if u.len() > 0 {
        let init = u.drop_last();
        assert(unique_ids(init)) by {
            assert forall|i: int, j: int| 0 <= i < j < init.len() implies identity(
                #[trigger] init[i],
            ) != identity(#[trigger] init[j]) by {
                assert(init[i] == u[i] && init[j] == u[j]);
            }
        }
        lemma_dedup_of_unique(init);
        if id_seen(init, identity(u.last())) {
            let j = choose|j: int| 0 <= j < init.len() && identity(#[trigger] init[j]) == identity(
                u.last(),
            );
            assert(identity(u[j]) == identity(u[u.len() - 1]));
        }
        assert(init.push(u.last()) =~= u);
    }
}

/// Deduplicating twice gives what deduplicating once gives.
pub proof fn lemma_dedup_idempotent(xs: Seq<RepoView>)
    ensures
        dedup_spec(dedup_spec(xs)) == dedup_spec(xs),
{
    lemma_dedup_unique(xs);
    lemma_dedup_of_unique(dedup_spec(xs));
}

/// Each record that deduplication keeps is the first record of its identity in
/// the input, provenance included.
pub proof fn lemma_dedup_keeps_first(xs: Seq<RepoView>)
    ensures
        forall|k: int|
            0 <= k < dedup_spec(xs).len() ==> exists|i: int|
                0 <= i < xs.len() && xs[i] == #[trigger] dedup_spec(xs)[k] && !id_seen(
                    xs.subrange(0, i),
                    identity(xs[i]),
                ),
    decreases xs.len(),
{
    if xs.len() > 0 {
        let init = xs.drop_last();
        lemma_dedup_keeps_first(init);
        let prev = dedup_spec(init);
        let d = dedup_spec(xs);
        assert forall|k: int| 0 <= k < d.len() implies exists|i: int|
            0 <= i < xs.len() && xs[i] == #[trigger] d[k] && !id_seen(
                xs.subrange(0, i),
                identity(xs[i]),
            ) by {
            if k < prev.len() {
                assert(d[k] == prev[k]);
                let i = choose|i: int|
                    0 <= i < init.len() && init[i] == #[trigger] prev[k] && !id_seen(
                        init.subrange(0, i),
                        identity(init[i]),
                    );
                assert(init.subrange(0, i) =~= xs.subrange(0, i));
                assert(xs[i] == init[i]);
            } else {
                let i = xs.len() - 1;
                assert(xs.subrange(0, i) =~= init);
                assert(d[k] == xs[i]);
            }
        }
    }
}

/// Whether a record of `out` has the identity of `r`.
#[verifier::spinoff_prover]
fn contains_identity(out: &Vec<Repository>, r: &Repository) -> (b: bool)
    ensures
        b == id_seen(repos_view(out@), identity(r@)),
{
    let mut i: usize = 0;
    while i < out.len()
        invariant
            i <= out@.len(),
            forall|j: int| 0 <= j < i ==> identity(out@[j]@) != identity(r@),
        decreases out@.len() - i,
    {
        if out[i].owner == r.owner && out[i].name == r.name {
            assert(identity(repos_view(out@)[i as int]) == identity(r@));
            return true;
        }
        i = i + 1;
    }
    proof {
        if id_seen(repos_view(out@), identity(r@)) {
            let j = choose|j: int|
                0 <= j < out@.len() && identity(#[trigger] repos_view(out@)[j]) == identity(r@);
            assert(identity(out@[j]@) == identity(r@));
        }
    }
    false
}

/// The first record of each `(owner, name)` identity, in order of first
/// appearance; a later record never replaces an earlier one's provenance.
#[verifier::spinoff_prover]
pub fn dedup_repositories(repos: &Vec<Repository>) -> (r: Vec<Repository>)
    ensures
        repos_view(r@) == dedup_spec(repos_view(repos@)),
{
    let mut out: Vec<Repository> = Vec::new();
    let mut i: usize = 0;
    while i < repos.len()
        invariant
            i <= repos@.len(),
            repos_view(out@) == dedup_spec(repos_view(repos@.subrange(0, i as int))),
        decreases repos@.len() - i,
    {
        let ghost xs = repos_view(repos@.subrange(0, i + 1));
        let ghost init = repos_view(repos@.subrange(0, i as int));
        assert(xs.drop_last() =~= init);
        assert(xs.last() == repos@[i as int]@);
        proof {
            lemma_dedup_ids(init, identity(repos@[i as int]@));
        }
        let ghost prev = out@;
        if !contains_identity(&out, &repos[i]) {
            out.push(repos[i].duplicate());
            assert(repos_view(out@) =~= repos_view(prev).push(repos@[i as int]@));
        }
        i = i + 1;
    }
    assert(repos@.subrange(0, repos@.len() as int) =~= repos@);
    out
}

/// The outcome for one repository: whether it was starred before the run.
#[derive(Debug, Clone)]
pub struct StarredRepository {
    pub repository: Repository,
    pub already_starred: bool,
}

/// The records of a finished run, one per unique repository, in order.
#[derive(Debug, Clone)]
pub struct RunSummary {
    pub starred: Vec<StarredRepository>,
}

pub open spec fn record_view(s: StarredRepository) -> (RepoView, bool) {
    (s.repository@, s.already_starred)
}

pub open spec fn summary_view(s: RunSummary) -> Seq<(RepoView, bool)> {
    s.starred@.map_values(|x: StarredRepository| record_view(x))
}

/// Each repository paired with the starred state the remote reported for it.
pub open spec fn paired(repos: Seq<RepoView>, answers: Seq<bool>) -> Seq<(RepoView, bool)> {
    Seq::new(answers.len(), |i: int| (repos[i], answers[i]))
}

/// How many records of `s` have the flag `already_starred` equal to `flag`.
pub open spec fn count_flag(s: Seq<(RepoView, bool)>, flag: bool) -> nat
    decreases s.len(),
{
    if s.len() == 0 {
        0
    } else {
        count_flag(s.drop_last(), flag) + if s.last().1 == flag {
            1nat
        } else {
            0nat
        }
    }
}

proof fn lemma_count_flag_bound(s: Seq<(RepoView, bool)>, flag: bool)
    ensures
        count_flag(s, flag) <= s.len(),
        count_flag(s, flag) + count_flag(s, !flag) == s.len(),
    decreases s.len(),
{
    if s.len() > 0 {
        lemma_count_flag_bound(s.drop_last(), flag);
    }
}

impl RunSummary {
    /// The number of records whose repository was starred before the run.
    #[verifier::spinoff_prover]
    pub fn already_starred_count(&self) -> (n: usize)
        ensures
            n == count_flag(summary_view(*self), true),
    {
        self.count_with(true)
    }

    /// The number of records whose repository the run starred, or would have
    /// starred in a dry run.
    #[verifier::spinoff_prover]
    pub fn newly_starred_count(&self) -> (n: usize)
        ensures
            n == count_flag(summary_view(*self), false),
    {
        self.count_with(false)
    }

    #[verifier::spinoff_prover]
    fn count_with(&self, flag: bool) -> (n: usize)
        ensures
            n == count_flag(summary_view(*self), flag),
    {
        let mut n: usize = 0;
        let mut i: usize = 0;
        while i < self.starred.len()
            invariant
                i <= self.starred@.len(),
                n == count_flag(summary_view(*self).subrange(0, i as int), flag),
            decreases self.starred@.len() - i,
        {
            let ghost prefix = summary_view(*self).subrange(0, i + 1);
            assert(prefix.drop_last() =~= summary_view(*self).subrange(0, i as int));
            proof {
                lemma_count_flag_bound(prefix, flag);
            }
            if self.starred[i].already_starred == flag {
                n = n + 1;
            }
            i = i + 1;
        }
        assert(summary_view(*self).subrange(0, self.starred@.len() as int) =~= summary_view(*self));
        n
    }
}

impl Default for RunSummary {
    #[verifier::spinoff_prover]
    fn default() -> (r: RunSummary)
        ensures
            r.starred@.len() == 0,
    {
        RunSummary { starred: Vec::new() }
    }
}

/// Receives the progress of a run. Every method does nothing unless overridden.
pub trait RunEventHandler {
    /// Called once, before any repository, with the number of repositories.
    fn on_start(&mut self, _total: usize) {
    }

    /// Called after each repository, with its 1-based position.
    fn on_starred(
        &mut self,
        _repo: &Repository,
        _already_starred: bool,
        _index: usize,
        _total: usize,
    ) {
    }

    /// Called once with the finished summary.
    fn on_complete(&mut self, _summary: &RunSummary) {
    }
}

/// The identities a run stars, in order, given the remote's answers to the
/// starred-state queries so far: each not-yet-starred repository, unless the
/// run is a dry run.
pub open spec fn star_targets(repos: Seq<RepoView>, answers: Seq<bool>, dry_run: bool) -> Seq<
    (Seq<char>, Seq<char>),
>
    decreases answers.len(),
{
    if answers.len() == 0 {
        seq![]
    } else {
        let i = answers.len() - 1;
        star_targets(repos, answers.drop_last(), dry_run) + if !answers[i] && !dry_run {
            seq![identity(repos[i])]
        } else {
            seq![]
        }
    }
}

/// What a remote whose starred identities are `starred` answers for each repository.
pub open spec fn remote_answers(repos: Seq<RepoView>, starred: Set<(Seq<char>, Seq<char>)>) -> Seq<
    bool,
> {
    Seq::new(repos.len(), |i: int| starred.contains(identity(repos[i])))
}

/// The next thing a run needs done.
#[derive(Debug, Clone, Copy, PartialEq, Eq, Structural)]
pub enum RunStep {
    /// Ask the remote whether the repository at this position is starred.
    Query(usize),
    /// Star the repository at this position.
    Star(usize),
    /// Every repository has been handled.
    Finished,
}

/// The state of a run as mathematical values.
pub struct ReconciliationView {
    pub repositories: Seq<RepoView>,
    pub dry_run: bool,
    pub answers: Seq<bool>,
    pub star_pending: bool,
}

/// A run that stars each unique repository not yet starred, one at a time.
///
/// The caller asks [`Reconciliation::next_step`] what to do, does it against
/// the remote, and reports back with [`Reconciliation::record_query`] or
/// [`Reconciliation::record_star`].
pub struct Reconciliation {
    repositories: Vec<Repository>,
    dry_run: bool,
    records: Vec<StarredRepository>,
    star_pending: bool,
}

impl View for Reconciliation {
    type V = ReconciliationView;

    closed spec fn view(&self) -> ReconciliationView {
        ReconciliationView {
            repositories: repos_view(self.repositories@),
            dry_run: self.dry_run,
            answers: self.records@.map_values(|x: StarredRepository| x.already_starred),
            star_pending: self.star_pending,
        }
    }
}

impl Reconciliation {
    pub closed spec fn well_formed(&self) -> bool {
        &&& self.records@.len() <= self.repositories@.len()
        &&& forall|i: int|
            0 <= i < self.records@.len() ==> (#[trigger] self.records@[i]).repository@
                == self.repositories@[i]@
        &&& self.star_pending ==> self.records@.len() > 0 && !self.dry_run
            && !self.records@.last().already_starred
    }

    /// A run over the unique repositories among `discovered`, in order of first
    /// appearance.
    #[verifier::spinoff_prover]
    pub fn new(discovered: &Vec<Repository>, dry_run: bool) -> (r: Reconciliation)
        ensures
            r.well_formed(),
            r@.repositories == dedup_spec(repos_view(discovered@)),
            r@.dry_run == dry_run,
            r@.answers.len() == 0,
            !r@.star_pending,
    {
        let r = Reconciliation {
            repositories: dedup_repositories(discovered),
            dry_run,
            records: Vec::new(),
            star_pending: false,
        };
        assert(r@.answers =~= Seq::<bool>::empty());
        r
    }

    /// The number of unique repositories.
    #[verifier::spinoff_prover]
    pub fn total(&self) -> (n: usize)
        ensures
            n == self@.repositories.len(),
    {
        self.repositories.len()
    }

    /// The repository at position `i`.
    #[verifier::spinoff_prover]
    pub fn repository(&self, i: usize) -> (r: &Repository)
        requires
            i < self@.repositories.len(),
        ensures
            r@ == self@.repositories[i as int],
    {
        &self.repositories[i]
    }

    /// What the run needs next: the star of the last queried repository if
    /// that is due, else the query of the next repository, else nothing.
    #[verifier::spinoff_prover]
    pub fn next_step(&self) -> (s: RunStep)
        requires
            self.well_formed(),
        ensures
            self@.star_pending ==> s == RunStep::Star((self@.answers.len() - 1) as usize),
            !self@.star_pending && self@.answers.len() < self@.repositories.len() ==> s
                == RunStep::Query(self@.answers.len() as usize),
            !self@.star_pending && self@.answers.len() == self@.repositories.len() ==> s
                == RunStep::Finished,
            self@.answers.len() <= self@.repositories.len(),
    {
        if self.star_pending {
            RunStep::Star(self.records.len() - 1)
        } else if self.records.len() < self.repositories.len() {
            RunStep::Query(self.records.len())
        } else {
            RunStep::Finished
        }
    }

    /// Takes the remote's answer for the next repository. Returns whether that
    /// repository must now be starred: only when it is not starred yet and the
    /// run is not a dry run.
    #[verifier::spinoff_prover]
    pub fn record_query(&mut self, already_starred: bool) -> (must_star: bool)
        requires
            old(self).well_formed(),
            !old(self)@.star_pending,
            old(self)@.answers.len() < old(self)@.repositories.len(),
        ensures
            final(self).well_formed(),
            must_star == (!already_starred && !old(self)@.dry_run),
            final(self)@ == (ReconciliationView {
                answers: old(self)@.answers.push(already_starred),
                star_pending: must_star,
                ..old(self)@
            }),
            star_targets(final(self)@.repositories, final(self)@.answers, final(self)@.dry_run)
                == star_targets(old(self)@.repositories, old(self)@.answers, old(self)@.dry_run)
                + if must_star {
                seq![identity(old(self)@.repositories[old(self)@.answers.len() as int])]
            } else {
                seq![]
            },
    {
        let i = self.records.len();
        let repository = self.repositories[i].duplicate();
        let ghost before = self.records@;
        self.records.push(StarredRepository { repository, already_starred });
        let must_star = !already_starred && !self.dry_run;
        self.star_pending = must_star;
        assert(self.records@.map_values(|x: StarredRepository| x.already_starred) =~= before.map_values(
            |x: StarredRepository| x.already_starred,
        ).push(already_starred));
        assert(self@.answers.drop_last() =~= before.map_values(
            |x: StarredRepository| x.already_starred,
        ));
        must_star
    }

    /// Notes that the pending star was done.
    #[verifier::spinoff_prover]
    pub fn record_star(&mut self)
        requires
            old(self).well_formed(),
            old(self)@.star_pending,
        ensures
            final(self).well_formed(),
            final(self)@ == (ReconciliationView { star_pending: false, ..old(self)@ }),
    {
        self.star_pending = false;
    }

    /// The record of the repository handled last.
    #[verifier::spinoff_prover]
    pub fn last_record(&self) -> (r: &StarredRepository)
        requires
            self.well_formed(),
            self@.answers.len() > 0,
        ensures
            record_view(*r) == (
                self@.repositories[self@.answers.len() - 1],
                self@.answers.last(),
            ),
    {
        &self.records[self.records.len() - 1]
    }

    /// The summary of a finished run: each unique repository with the starred
    /// state the remote reported for it.
    #[verifier::spinoff_prover]
    pub fn into_summary(self) -> (r: RunSummary)
        requires
            self.well_formed(),
            !self@.star_pending,
            self@.answers.len() == self@.repositories.len(),
        ensures
            summary_view(r) == paired(self@.repositories, self@.answers),
    {
        let r = RunSummary { starred: self.records };
        assert(summary_view(r) =~= paired(self@.repositories, self@.answers));
        r
    }
}

proof fn lemma_star_targets_cover(repos: Seq<RepoView>, answers: Seq<bool>, i: int)
    requires
        0 <= i < answers.len(),
        !answers[i],
    ensures
        star_targets(repos, answers, false).contains(identity(repos[i])),
    decreases answers.len(),
{
    let n = answers.len() - 1;
    let prev = star_targets(repos, answers.drop_last(), false);
    if i < n {
        lemma_star_targets_cover(repos, answers.drop_last(), i);
        let j = choose|j: int| 0 <= j < prev.len() && prev[j] == identity(repos[i]);
        assert(star_targets(repos, answers, false)[j] == identity(repos[i]));
    } else {
        assert(star_targets(repos, answers, false)[prev.len() as int] == identity(repos[i]));
    }
}

proof fn lemma_no_targets_when_all_starred(repos: Seq<RepoView>, answers: Seq<bool>, dry_run: bool)
    requires
        forall|i: int| 0 <= i < answers.len() ==> answers[i],
    ensures
        star_targets(repos, answers, dry_run) == Seq::<(Seq<char>, Seq<char>)>::empty(),
    decreases answers.len(),
{
    if answers.len() > 0 {
        lemma_no_targets_when_all_starred(repos, answers.drop_last(), dry_run);
        assert(star_targets(repos, answers, dry_run) =~= Seq::<(Seq<char>, Seq<char>)>::empty());
    }
}

/// A dry run stars nothing, whatever the remote answers.
pub proof fn lemma_dry_run_stars_nothing(repos: Seq<RepoView>, answers: Seq<bool>)
    ensures
        star_targets(repos, answers, true) == Seq::<(Seq<char>, Seq<char>)>::empty(),
    decreases answers.len(),
{
    if answers.len() > 0 {
        lemma_dry_run_stars_nothing(repos, answers.drop_last());
        assert(star_targets(repos, answers, true) =~= Seq::<(Seq<char>, Seq<char>)>::empty());
    }
}

/// Against a fixed remote, a second run over the same repositories finds every
/// one starred and stars nothing; so do all later runs, which report the same
/// flags as the second.
pub proof fn lemma_second_run_stars_nothing(
    repos: Seq<RepoView>,
    starred: Set<(Seq<char>, Seq<char>)>,
)
    ensures
        ({
            let first = remote_answers(repos, starred);
            let after = starred + star_targets(repos, first, false).to_set();
            let second = remote_answers(repos, after);
            &&& forall|i: int| 0 <= i < second.len() ==> second[i]
            &&& star_targets(repos, second, false) == Seq::<(Seq<char>, Seq<char>)>::empty()
            &&& remote_answers(repos, after + star_targets(repos, second, false).to_set())
                == second
        }),
{
    let first = remote_answers(repos, starred);
    let targets = star_targets(repos, first, false);
    let after = starred + targets.to_set();
    let second = remote_answers(repos, after);
    assert forall|i: int| 0 <= i < second.len() implies second[i] by {
        if !starred.contains(identity(repos[i])) {
            lemma_star_targets_cover(repos, first, i);
            assert(targets.to_set().contains(identity(repos[i])));
        }
    }
    lemma_no_targets_when_all_starred(repos, second, false);
    assert(Seq::<(Seq<char>, Seq<char>)>::empty().to_set() =~= Set::empty());
    assert(after + Set::empty() =~= after);
}

} // verus!
