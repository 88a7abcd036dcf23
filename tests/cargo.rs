use thanks_stars::discovery::parse_github_repository;
use thanks_stars::ecosystems::cargo::{
    dependency_repositories, direct_dependency_ids, CargoMetadata, CargoPackage, ResolveNode,
};
use thanks_stars::order::{sorted_set, str_less};

const ROOT: &str = "root 0.1.0 (path+file:///root)";
const DEP1: &str = "dep1 1.0.0 (registry+https://github.com/rust-lang/crates.io-index)";
const DEP2: &str = "dep2 2.0.0 (git+https://github.com/example/dep2)";

fn package(id: &str, repository: Option<&str>) -> CargoPackage {
    CargoPackage { id: id.to_string(), repository: repository.map(|r| r.to_string()) }
}

#[test]
fn extracts_repositories_from_metadata() {
    let metadata = CargoMetadata {
        packages: vec![
            package(ROOT, None),
            package(DEP1, Some("https://github.com/example/dep1")),
            package(DEP2, Some("https://github.com/example/dep2")),
        ],
        workspace_members: vec![ROOT.to_string()],
        resolve: Some(vec![ResolveNode {
            id: ROOT.to_string(),
            deps: vec![DEP2.to_string(), DEP1.to_string(), DEP2.to_string()],
        }]),
    };
    let repos: Vec<_> = dependency_repositories(&metadata)
        .iter()
        .filter_map(|url| parse_github_repository(url))
        .collect();
    assert_eq!(repos.len(), 2);
    let names: Vec<_> = repos.iter().map(|repo| repo.name.as_str()).collect();
    assert!(names.contains(&"dep1"));
    assert!(names.contains(&"dep2"));
    assert_eq!(direct_dependency_ids(&metadata), vec![DEP1.to_string(), DEP2.to_string()]);
}

#[test]
fn returns_empty_when_no_repositories() {
    let metadata = CargoMetadata {
        packages: vec![package(ROOT, None)],
        workspace_members: vec![ROOT.to_string()],
        resolve: Some(vec![ResolveNode { id: ROOT.to_string(), deps: vec![] }]),
    };
    assert!(dependency_repositories(&metadata).is_empty());
    let unresolved = CargoMetadata { resolve: None, ..metadata };
    assert!(direct_dependency_ids(&unresolved).is_empty());
}

#[test]
fn strings_order_by_characters() {
    assert!(str_less("abc", "abd"));
    assert!(str_less("ab", "abc"));
    assert!(!str_less("abc", "abc"));
    assert!(!str_less("b", "abc"));
    assert!(str_less("Z", "a"));
}

#[test]
fn sorted_set_orders_and_drops_repeats() {
    let values: Vec<String> = ["b", "a", "b", "c", "a"].iter().map(|s| s.to_string()).collect();
    assert_eq!(sorted_set(&values), vec!["a".to_string(), "b".to_string(), "c".to_string()]);
}
