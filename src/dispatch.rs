use vstd::prelude::*;

use crate::discovery::{RepoView, Repository};
use crate::reconcile::repos_view;

verus! {

/// The repositories of every successful result, concatenated in the order of
/// the results.
pub open spec fn flatten_ok<E>(rs: Seq<Result<Vec<Repository>, E>>) -> Seq<RepoView>
    decreases rs.len(),
{
    if rs.len() == 0 {
        seq![]
    } else {
        flatten_ok(rs.drop_last()) + match rs.last() {
            Ok(v) => repos_view(v@),
            Err(_) => seq![],
        }
    }
}

/// Position of the first failed result.
pub open spec fn first_failure<E>(rs: Seq<Result<Vec<Repository>, E>>) -> int {
    choose|k: int|
        0 <= k < rs.len() && rs[k] is Err && forall|j: int| 0 <= j < k ==> (#[trigger] rs[j]) is Ok
}

pub open spec fn all_ok<E>(rs: Seq<Result<Vec<Repository>, E>>) -> bool {
    forall|i: int| 0 <= i < rs.len() ==> (#[trigger] rs[i]) is Ok
}

/// Appends a copy of each repository of `v` to `out`.
#[verifier::spinoff_prover]
fn extend_with(out: &mut Vec<Repository>, v: &Vec<Repository>)
    ensures
        repos_view(final(out)@) == repos_view(old(out)@) + repos_view(v@),
{
    let ghost base = repos_view(out@);
    let mut j: usize = 0;
    while j < v.len()
        invariant
            j <= v@.len(),
            repos_view(out@) == base + repos_view(v@.subrange(0, j as int)),
        decreases v@.len() - j,
    {
        let ghost prev = out@;
        out.push(v[j].duplicate());
        assert(repos_view(out@) =~= repos_view(prev).push(v@[j as int]@));
        assert(repos_view(v@.subrange(0, j + 1)) =~= repos_view(v@.subrange(0, j as int)).push(
            v@[j as int]@,
        ));
        j = j + 1;
    }
    assert(v@.subrange(0, v@.len() as int) =~= v@);
}

/// Joins the per-ecosystem results of a discovery, given in the order the
/// ecosystems were selected. The first error in that order wins; without one,
/// the repositories are concatenated in that order, whatever order the
/// discoveries finished in.
#[verifier::spinoff_prover]
pub fn merge_discoveries<E>(results: Vec<Result<Vec<Repository>, E>>) -> (r: Result<
    Vec<Repository>,
    E,
>)
    ensures
        match r {
            Ok(v) => all_ok(results@) && repos_view(v@) == flatten_ok(results@),
            Err(e) => !all_ok(results@) && results@[first_failure(results@)] == Err::<
                Vec<Repository>,
                E,
            >(e),
        },
{
    let ghost orig = results@;
    let mut rs = results;
    let mut out: Vec<Repository> = Vec::new();
    let mut i: usize = 0;
    while i < rs.len()
        invariant
            rs@ == orig,
            results@ == orig,
            i <= orig.len(),
            forall|j: int| 0 <= j < i ==> (#[trigger] orig[j]) is Ok,
            repos_view(out@) == flatten_ok(orig.subrange(0, i as int)),
        decreases orig.len() - i,
    {
        let failed = match &rs[i] {
            Ok(_) => false,
            Err(_) => true,
        };
        if failed {
            let x = rs.remove(i);
            assert(x == orig[i as int]);
            match x {
                Err(e) => {
                    assert(orig[i as int] == Err::<Vec<Repository>, E>(e));
                    let ghost k = first_failure(orig);
                    assert(0 <= i < orig.len() && orig[i as int] is Err && forall|j: int|
                        0 <= j < i ==> (#[trigger] orig[j]) is Ok);
                    assert(k == i) by {
                        if k < i {
                            assert(orig[k] is Ok);
                        } else if k > i {
                            assert(orig[i as int] is Ok);
                        }
                    }
                    return Err(e);
                },
                Ok(_) => {
                    assert(false);
                    return Ok(out);
                },
            }
        }
        assert(orig.subrange(0, i + 1).drop_last() =~= orig.subrange(0, i as int));
        match &rs[i] {
            Ok(v) => {
                extend_with(&mut out, v);
            },
            Err(_) => {},
        }
        i = i + 1;
    }
    assert(orig.subrange(0, orig.len() as int) =~= orig);
    Ok(out)
}

/// Discoveries that both succeed are joined in the order they were selected.
pub proof fn lemma_merge_keeps_selection_order<E>(a: Vec<Repository>, b: Vec<Repository>)
    ensures
        flatten_ok(seq![Ok::<Vec<Repository>, E>(a), Ok::<Vec<Repository>, E>(b)]) == repos_view(a@)
            + repos_view(b@),
{
    let rs = seq![Ok::<Vec<Repository>, E>(a), Ok::<Vec<Repository>, E>(b)];
    assert(rs.drop_last() =~= seq![Ok::<Vec<Repository>, E>(a)]);
    assert(rs.drop_last().drop_last() =~= Seq::<Result<Vec<Repository>, E>>::empty());
    assert(flatten_ok(rs.drop_last().drop_last()) == Seq::<RepoView>::empty());
    assert(rs.drop_last().last() == Ok::<Vec<Repository>, E>(a));
    assert(flatten_ok(rs.drop_last()) =~= repos_view(a@));
}

/// A discovery fails as a whole as soon as any one ecosystem fails.
pub proof fn lemma_any_failure_fails<E>(rs: Seq<Result<Vec<Repository>, E>>, i: int)
    requires
        0 <= i < rs.len(),
        rs[i] is Err,
    ensures
        !all_ok(rs),
{
}

} // verus!
