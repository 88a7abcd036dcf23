use vstd::prelude::*;

use crate::discovery::strings_view;

verus! {

/// A failure the GitHub API reported: the HTTP status and a description.
#[derive(Debug, Clone)]
pub struct ApiFailure {
    pub status: u16,
    pub body: String,
}

/// A status in the 2xx range.
pub open spec fn is_success_spec(status: u16) -> bool {
    200 <= status && status <= 299
}

/// Whether a response to the star request means the repository is starred:
/// any 2xx status, or 304.
#[verifier::spinoff_prover]
pub fn star_succeeded(status: u16) -> (r: bool)
    ensures
        r == (is_success_spec(status) || status == 304),
{
    (200 <= status && status <= 299) || status == 304
}

/// `msgs` joined with `, ` between them.
pub open spec fn join_messages(msgs: Seq<Seq<char>>) -> Seq<char>
    decreases msgs.len(),
{
    if msgs.len() == 0 {
        seq![]
    } else if msgs.len() == 1 {
        msgs[0]
    } else {
        join_messages(msgs.drop_last()) + ", "@ + msgs.last()
    }
}

#[verifier::spinoff_prover]
fn join_exec(msgs: &Vec<String>) -> (r: String)
    ensures
        r@ == join_messages(strings_view(msgs@)),
{
    let mut out = String::new();
    let mut i: usize = 0;
    while i < msgs.len()
        invariant
            i <= msgs@.len(),
            out@ == join_messages(strings_view(msgs@.subrange(0, i as int))),
        decreases msgs@.len() - i,
    {
        let ghost part = strings_view(msgs@.subrange(0, i + 1));
        assert(part.drop_last() =~= strings_view(msgs@.subrange(0, i as int)));
        if i > 0 {
            out.append(", ");
        } else {
            assert(part =~= seq![msgs@[0]@]);
        }
        out.append(msgs[i].as_str());
        i = i + 1;
    }
    assert(msgs@.subrange(0, msgs@.len() as int) =~= msgs@);
    out
}

/// What a decoded GraphQL answer to the starred-state query means: any
/// reported errors, joined; else the flag, if the repository was found.
pub open spec fn graphql_outcome_spec(
    status: u16,
    errors: Option<Seq<Seq<char>>>,
    starred: Option<bool>,
) -> Result<bool, (u16, Seq<char>)> {
    match errors {
        Some(e) => Err((status, join_messages(e))),
        None => match starred {
            Some(b) => Ok(b),
            None => Err((status, "repository data missing from GraphQL response"@)),
        },
    }
}

pub open spec fn failure_view(r: Result<bool, ApiFailure>) -> Result<bool, (u16, Seq<char>)> {
    match r {
        Ok(b) => Ok(b),
        Err(f) => Err((f.status, f.body@)),
    }
}

/// Reads the decoded answer of a successful starred-state query.
#[verifier::spinoff_prover]
pub fn graphql_outcome(status: u16, errors: Option<Vec<String>>, starred: Option<bool>) -> (r: Result<
    bool,
    ApiFailure,
>)
    ensures
        failure_view(r) == graphql_outcome_spec(
            status,
            match errors {
                Some(e) => Some(strings_view(e@)),
                None => None,
            },
            starred,
        ),
{
    match errors {
        Some(e) => Err(ApiFailure { status, body: join_exec(&e) }),
        None => match starred {
            Some(b) => Ok(b),
            None => Err(
                ApiFailure {
                    status,
                    body: String::from_str("repository data missing from GraphQL response"),
                },
            ),
        },
    }
}

} // verus!
