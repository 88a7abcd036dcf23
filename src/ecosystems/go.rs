use vstd::prelude::*;

use crate::order::{sorted, sorted_set};
use crate::reconcile::repos_view;
use crate::discovery::{opt_repo_view, opt_str_view, parse_github_repository, parse_spec, Repository, strings_view};
use crate::text::{
    chars_of, find, find_exec, first_word, first_word_of, has_prefix, index_of, index_of_exec,
    lines_of, next_line, same_str, starts_with, strip_prefix, trim, trim_str,
};

verus! {

/// Finds repositories among the requirements of a Go module.
pub struct GoDiscoverer;

impl GoDiscoverer {
    #[verifier::spinoff_prover]
    pub fn new() -> GoDiscoverer {
        GoDiscoverer
    }
}

/// The module path a `require` line names: the first word before any `//`
/// comment; none if nothing is left.
pub open spec fn module_name_spec(line: Seq<char>) -> Option<Seq<char>> {
    let w = trim(
        match find(line, "//"@) {
            Some(k) => line.subrange(0, k),
            None => line,
        },
    );
    if w.len() == 0 {
        None
    } else {
        Some(first_word(w))
    }
}

/// The module path of a `require` line, if it names one.
#[verifier::spinoff_prover]
pub fn parse_module_name(line: &str) -> (r: Option<String>)
    ensures
        opt_str_view(r) == module_name_spec(line@),
{
    let c = chars_of(line);
    let sep = chars_of("//");
    let before = match find_exec(&c, &sep, 0) {
        Some(k) => {
            proof { crate::text::lemma_find_from_bounds(c@, sep@, 0); }
            line.substring_char(0, k)
        },
        None => line,
    };
    let w = trim_str(before);
    if w.is_empty() {
        return None;
    }
    Some(String::from_str(first_word_of(w)))
}

/// The repository a module path on `github.com` names: its first two segments.
pub open spec fn go_module_spec(module: Seq<char>) -> Option<crate::discovery::RepoView> {
    if !has_prefix(module, "github.com/"@) {
        None
    } else {
        let rest = module.subrange("github.com/"@.len() as int, module.len() as int);
        match index_of(rest, '/') {
            None => None,
            Some(k) => {
                let after = rest.subrange(k + 1, rest.len() as int);
                let repo = match index_of(after, '/') {
                    Some(m) => after.subrange(0, m),
                    None => after,
                };
                parse_spec(rest.subrange(0, k) + "/"@ + repo)
            },
        }
    }
}

/// The repository of a Go module path on `github.com`, if it names one.
#[verifier::spinoff_prover]
pub fn parse_go_module(module: &str) -> (r: Option<Repository>)
    ensures
        opt_repo_view(r) == go_module_spec(module@),
{
    let rest = match strip_prefix(module, "github.com/") {
        Some(rest) => rest,
        None => {
            return None;
        },
    };
    let rc = chars_of(rest);
    let k = match index_of_exec(&rc, '/') {
        Some(k) => k,
        None => {
            return None;
        },
    };
    assert(k < rc.len());
    let after = rest.substring_char(k + 1, rc.len());
    let ac = chars_of(after);
    let repo = match index_of_exec(&ac, '/') {
        Some(m) => after.substring_char(0, m),
        None => after,
    };
    let mut reference = String::from_str(rest.substring_char(0, k));
    reference.append("/");
    reference.append(repo);
    parse_github_repository(reference.as_str())
}

/// One line of a `go.mod` read into the state (module paths so far, inside a
/// `require ( ... )` block).
pub open spec fn require_step(st: (Seq<Seq<char>>, bool), raw: Seq<char>) -> (Seq<Seq<char>>, bool) {
    let line = trim(raw);
    let found = |o: Option<Seq<char>>|
        match o {
            Some(n) => st.0.push(n),
            None => st.0,
        };
    if has_prefix(line, "require ("@) {
        (st.0, true)
    } else if st.1 {
        if line == ")"@ {
            (st.0, false)
        } else {
            (found(module_name_spec(line)), true)
        }
    } else if has_prefix(line, "require "@) {
        (found(module_name_spec(line.subrange("require "@.len() as int, line.len() as int))), false)
    } else {
        st
    }
}

pub open spec fn require_fold(lines: Seq<Seq<char>>, st: (Seq<Seq<char>>, bool)) -> (
    Seq<Seq<char>>,
    bool,
)
    decreases lines.len(),
{
    if lines.len() == 0 {
        st
    } else {
        require_fold(lines.drop_first(), require_step(st, lines[0]))
    }
}

/// The module paths that the `require` directives of a `go.mod` name, in order.
pub open spec fn requirements_spec(content: Seq<char>) -> Seq<Seq<char>> {
    require_fold(lines_of(content), (seq![], false)).0
}

#[verifier::spinoff_prover]
fn push_name(names: &mut Vec<String>, name: Option<String>)
    ensures
        strings_view(final(names)@) == match opt_str_view(name) {
            Some(n) => strings_view(old(names)@).push(n),
            None => strings_view(old(names)@),
        },
{
    match name {
        Some(n) => {
            let ghost prev = names@;
            names.push(n);
            assert(strings_view(names@) =~= strings_view(prev).push(names@.last()@));
        },
        None => {},
    }
}

#[verifier::spinoff_prover]
fn require_line(names: &mut Vec<String>, in_block: bool, raw: &str) -> (r: bool)
    ensures
        (strings_view(final(names)@), r) == require_step((strings_view(old(names)@), in_block), raw@),
{
    let line = trim_str(raw);
    if starts_with(line, "require (") {
        return true;
    }
    if in_block {
        if same_str(line, ")") {
            return false;
        }
        push_name(names, parse_module_name(line));
        return true;
    }
    if let Some(rest) = strip_prefix(line, "require ") {
        push_name(names, parse_module_name(rest));
    }
    false
}

/// The module paths that the `require` directives of a `go.mod` name, in order.
#[verifier::spinoff_prover]
#[verifier::rlimit(40)]
pub fn parse_requirements(content: &str) -> (r: Vec<String>)
    ensures
        strings_view(r@) == requirements_spec(content@),
{
    let chars = chars_of(content);
    let n = chars.len();
    let mut pos: usize = 0;
    let mut names: Vec<String> = Vec::new();
    let mut in_block = false;
    assert(content@.subrange(0, n as int) =~= content@);
    assert(strings_view(names@) =~= Seq::<Seq<char>>::empty());
    let ghost goal = requirements_spec(content@);
    while pos < n
        invariant
            chars@ == content@,
            n == content@.len(),
            pos <= n,
            goal == require_fold(
                lines_of(content@.subrange(pos as int, n as int)),
                (strings_view(names@), in_block),
            ).0,
        decreases n - pos,
    {
        let (line, next) = next_line(content, &chars, pos);
        let ghost ls = lines_of(content@.subrange(pos as int, n as int));
        assert(ls.drop_first() =~= lines_of(content@.subrange(next as int, n as int)));
        in_block = require_line(&mut names, in_block, line);
        pos = next;
    }
    assert(content@.subrange(n as int, n as int) =~= Seq::<char>::empty());
    assert(lines_of(Seq::<char>::empty()) =~= Seq::<Seq<char>>::empty());
    names
}

/// The repositories of the modules `names`, in order, each labelled `go.mod`.
pub open spec fn go_repos_of(names: Seq<Seq<char>>) -> Seq<crate::discovery::RepoView>
    decreases names.len(),
{
    if names.len() == 0 {
        seq![]
    } else {
        go_repos_of(names.drop_last()) + match go_module_spec(names.last()) {
            Some(r) => seq![crate::discovery::RepoView { via: Some("go.mod"@), ..r }],
            None => seq![],
        }
    }
}

/// The GitHub repositories that a `go.mod` requires, ordered by module path,
/// each module once.
pub fn go_mod_repositories(content: &str) -> (r: Vec<Repository>)
    ensures
        exists|names: Seq<Seq<char>>|
            sorted(names) && (forall|y: Seq<char>|
                names.contains(y) <==> requirements_spec(content@).contains(y))
                && repos_view(r@) == go_repos_of(names),
{
    let required = parse_requirements(content);
    let names = sorted_set(&required);
    let mut out: Vec<Repository> = Vec::new();
    let mut i: usize = 0;
    assert(repos_view(out@) =~= go_repos_of(strings_view(names@).subrange(0, 0)));
    while i < names.len()
        invariant
            i <= names@.len(),
            repos_view(out@) == go_repos_of(strings_view(names@).subrange(0, i as int)),
        decreases names@.len() - i,
    {
        let ghost pre = strings_view(names@).subrange(0, i + 1);
        assert(pre.drop_last() =~= strings_view(names@).subrange(0, i as int));
        let ghost before = repos_view(out@);
        match parse_go_module(names[i].as_str()) {
            Some(repository) => {
                let labelled = repository.with_via("go.mod");
                out.push(labelled);
                assert(repos_view(out@) =~= before + seq![out@.last()@]);
            },
            None => {
                assert(repos_view(out@) =~= before + Seq::<crate::discovery::RepoView>::empty());
            },
        }
        i = i + 1;
    }
    assert(strings_view(names@).subrange(0, names@.len() as int) =~= strings_view(names@));
    out
}

} // verus!
