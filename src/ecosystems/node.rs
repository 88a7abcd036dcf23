use vstd::prelude::*;

verus! {

/// Finds repositories through the installed packages of a Node project.
pub struct NodeDiscoverer;

impl NodeDiscoverer {
    #[verifier::spinoff_prover]
    pub fn new() -> NodeDiscoverer {
        NodeDiscoverer
    }
}

/// Where the manifest of the installed package `name` lies, relative to the
/// project root; a scoped name such as `@scope/pkg` gives two directories.
pub open spec fn package_path_spec(name: Seq<char>) -> Seq<char> {
    "node_modules/"@ + name + "/package.json"@
}

/// The manifest path of the installed package `name`, relative to the project root.
#[verifier::spinoff_prover]
pub fn dependency_package_path(name: &str) -> (r: String)
    ensures
        r@ == package_path_spec(name@),
{
    let mut path = String::from_str("node_modules/");
    path.append(name);
    path.append("/package.json");
    path
}

} // verus!
