use vstd::prelude::*;

use crate::discovery::{opt_str_view, strings_view};
use crate::order::{insert_sorted, lemma_push_contains, sorted};
use crate::text::same_str;

verus! {

/// A package of `cargo metadata`: its id and declared repository.
pub struct CargoPackage {
    pub id: String,
    pub repository: Option<String>,
}

/// A node of the resolved dependency graph: a package id and the ids it
/// depends on.
pub struct ResolveNode {
    pub id: String,
    pub deps: Vec<String>,
}

/// What `cargo metadata` reports that the discovery reads.
pub struct CargoMetadata {
    pub packages: Vec<CargoPackage>,
    pub resolve: Option<Vec<ResolveNode>>,
    pub workspace_members: Vec<String>,
}

/// The last node with the id `id`, as a map keyed by id keeps it.
pub open spec fn node_for(nodes: Seq<ResolveNode>, id: Seq<char>) -> Option<ResolveNode>
    decreases nodes.len(),
{
    if nodes.len() == 0 {
        None
    } else if nodes.last().id@ == id {
        Some(nodes.last())
    } else {
        node_for(nodes.drop_last(), id)
    }
}

/// The last package with the id `id`, as a map keyed by id keeps it.
pub open spec fn package_for(packages: Seq<CargoPackage>, id: Seq<char>) -> Option<CargoPackage>
    decreases packages.len(),
{
    if packages.len() == 0 {
        None
    } else if packages.last().id@ == id {
        Some(packages.last())
    } else {
        package_for(packages.drop_last(), id)
    }
}

/// Whether the node of `member` lists `d` among its dependencies.
pub open spec fn dep_of(nodes: Seq<ResolveNode>, member: Seq<char>, d: Seq<char>) -> bool {
    match node_for(nodes, member) {
        Some(n) => strings_view(n.deps@).contains(d),
        None => false,
    }
}

/// Whether `d` is a direct dependency of one of the workspace members.
pub open spec fn is_direct_dependency(m: CargoMetadata, d: Seq<char>) -> bool {
    match m.resolve {
        Some(nodes) => exists|k: int|
            0 <= k < m.workspace_members@.len() && #[trigger] dep_of(
                nodes@,
                m.workspace_members@[k]@,
                d,
            ),
        None => false,
    }
}

fn node_for_exec<'a>(nodes: &'a Vec<ResolveNode>, id: &str) -> (r: Option<&'a ResolveNode>)
    ensures
        match r {
            Some(n) => node_for(nodes@, id@) == Some(*n),
            None => node_for(nodes@, id@) is None,
        },
{
    let mut k = nodes.len();
    assert(nodes@.subrange(0, k as int) =~= nodes@);
    while k > 0
        invariant
            k <= nodes@.len(),
            node_for(nodes@, id@) == node_for(nodes@.subrange(0, k as int), id@),
        decreases k,
    {
        assert(nodes@.subrange(0, k as int).drop_last() =~= nodes@.subrange(0, k - 1));
        if same_str(nodes[k - 1].id.as_str(), id) {
            return Some(&nodes[k - 1]);
        }
        k = k - 1;
    }
    None
}

fn package_for_exec<'a>(packages: &'a Vec<CargoPackage>, id: &str) -> (r: Option<&'a CargoPackage>)
    ensures
        match r {
            Some(p) => package_for(packages@, id@) == Some(*p),
            None => package_for(packages@, id@) is None,
        },
{
    let mut k = packages.len();
    assert(packages@.subrange(0, k as int) =~= packages@);
    while k > 0
        invariant
            k <= packages@.len(),
            package_for(packages@, id@) == package_for(packages@.subrange(0, k as int), id@),
        decreases k,
    {
        assert(packages@.subrange(0, k as int).drop_last() =~= packages@.subrange(0, k - 1));
        if same_str(packages[k - 1].id.as_str(), id) {
            return Some(&packages[k - 1]);
        }
        k = k - 1;
    }
    None
}

/// The ids of the direct dependencies of the workspace members, in order and
/// each once.
pub fn direct_dependency_ids(m: &CargoMetadata) -> (r: Vec<String>)
    ensures
        sorted(strings_view(r@)),
        forall|d: Seq<char>| strings_view(r@).contains(d) <==> is_direct_dependency(*m, d),
{
    let mut out: Vec<String> = Vec::new();
    let nodes = match &m.resolve {
        Some(nodes) => nodes,
        None => {
            return out;
        },
    };
    let members = &m.workspace_members;
    let mut k: usize = 0;
    while k < members.len()
        invariant
            m.resolve == Some(*nodes),
            *members == m.workspace_members,
            k <= members@.len(),
            sorted(strings_view(out@)),
            forall|d: Seq<char>|
                strings_view(out@).contains(d) <==> exists|j: int|
                    0 <= j < k && #[trigger] dep_of(nodes@, members@[j]@, d),
        decreases members@.len() - k,
    {
        let ghost before = strings_view(out@);
        match node_for_exec(nodes, members[k].as_str()) {
            Some(node) => {
                let mut i: usize = 0;
                while i < node.deps.len()
                    invariant
                        i <= node.deps@.len(),
                        sorted(strings_view(out@)),
                        forall|d: Seq<char>|
                            strings_view(out@).contains(d) <==> (before.contains(d) || strings_view(
                                node.deps@.subrange(0, i as int),
                            ).contains(d)),
                    decreases node.deps@.len() - i,
                {
                    let ghost prev = strings_view(out@);
                    let ghost part = strings_view(node.deps@.subrange(0, i as int));
                    assert(forall|d: Seq<char>|
                        #[trigger] prev.contains(d) <==> (before.contains(d) || part.contains(d)));
                    let dep = node.deps[i].clone();
                    let ghost x = dep@;
                    insert_sorted(&mut out, dep);
                    assert(strings_view(node.deps@.subrange(0, i + 1)) =~= part.push(x));
                    assert forall|d: Seq<char>|
                        strings_view(out@).contains(d) <==> (before.contains(d) || strings_view(
                            node.deps@.subrange(0, i + 1),
                        ).contains(d)) by {
                        lemma_push_contains(part, x, d);
                        assert(strings_view(out@).contains(d) <==> (prev.contains(d) || d == x));
                        assert(prev.contains(d) <==> (before.contains(d) || part.contains(d)));
                    }
                    i = i + 1;
                }
                assert(node.deps@.subrange(0, node.deps@.len() as int) =~= node.deps@);
                assert(node_for(nodes@, members@[k as int]@) == Some(*node));
            },
            None => {
                assert(node_for(nodes@, members@[k as int]@) is None);
            },
        }
        assert forall|d: Seq<char>|
            strings_view(out@).contains(d) <==> exists|j: int|
                0 <= j < k + 1 && #[trigger] dep_of(nodes@, members@[j]@, d) by {
            assert(before.contains(d) <==> exists|j: int|
                0 <= j < k && #[trigger] dep_of(nodes@, members@[j]@, d));
            if exists|j: int| 0 <= j < k + 1 && #[trigger] dep_of(nodes@, members@[j]@, d) {
                let j = choose|j: int| 0 <= j < k + 1 && #[trigger] dep_of(nodes@, members@[j]@, d);
                if j < k {
                    assert(before.contains(d));
                }
            }
            if strings_view(out@).contains(d) && !before.contains(d) {
                assert(dep_of(nodes@, members@[k as int]@, d));
            }
        }
        k = k + 1;
    }
    out
}

/// The repositories declared by the packages with the ids `ids`, in order.
pub open spec fn repositories_of(packages: Seq<CargoPackage>, ids: Seq<Seq<char>>) -> Seq<Seq<char>>
    decreases ids.len(),
{
    if ids.len() == 0 {
        seq![]
    } else {
        repositories_of(packages, ids.drop_last()) + match package_for(packages, ids.last()) {
            Some(p) => match opt_str_view(p.repository) {
                Some(r) => seq![r],
                None => seq![],
            },
            None => seq![],
        }
    }
}

/// The repositories that the direct dependencies of the workspace members
/// declare, ordered by package id.
pub fn dependency_repositories(m: &CargoMetadata) -> (r: Vec<String>)
    ensures
        exists|ids: Seq<Seq<char>>|
            sorted(ids) && (forall|d: Seq<char>| ids.contains(d) <==> is_direct_dependency(*m, d))
                && strings_view(r@) == repositories_of(m.packages@, ids),
{
    let ids = direct_dependency_ids(m);
    let mut out: Vec<String> = Vec::new();
    let mut i: usize = 0;
    assert(strings_view(out@) =~= repositories_of(m.packages@, strings_view(ids@).subrange(0, 0)));
    while i < ids.len()
        invariant
            i <= ids@.len(),
            strings_view(out@) == repositories_of(m.packages@, strings_view(ids@).subrange(0, i as int)),
        decreases ids@.len() - i,
    {
        let ghost pre = strings_view(ids@).subrange(0, i + 1);
        assert(pre.drop_last() =~= strings_view(ids@).subrange(0, i as int));
        let ghost before = strings_view(out@);
        match package_for_exec(&m.packages, ids[i].as_str()) {
            Some(p) => match &p.repository {
                Some(r) => {
                    out.push(r.clone());
                    assert(strings_view(out@) =~= before + seq![r@]);
                },
                None => {
                    assert(strings_view(out@) =~= before + Seq::<Seq<char>>::empty());
                },
            },
            None => {
                assert(strings_view(out@) =~= before + Seq::<Seq<char>>::empty());
            },
        }
        i = i + 1;
    }
    assert(strings_view(ids@).subrange(0, ids@.len() as int) =~= strings_view(ids@));
    out
}

} // verus!
