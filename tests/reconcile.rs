use std::collections::BTreeSet;

use thanks_stars::discovery::{parse_github_repository, Repository};
use thanks_stars::dispatch::merge_discoveries;
use thanks_stars::reconcile::{dedup_repositories, Reconciliation, RunStep};
use thanks_stars::RunSummary;

fn repo(owner: &str, name: &str, via: &str) -> Repository {
    parse_github_repository(&format!("{owner}/{name}")).unwrap().with_via(via)
}

/// A remote with a fixed set of starred repositories that records star calls.
struct Remote {
    starred: BTreeSet<(String, String)>,
    queries: usize,
    stars: Vec<(String, String)>,
}

impl Remote {
    fn new(starred: &[(&str, &str)]) -> Self {
        Remote {
            starred: starred.iter().map(|(o, n)| (o.to_string(), n.to_string())).collect(),
            queries: 0,
            stars: Vec::new(),
        }
    }
}

fn run(remote: &mut Remote, discovered: &[Repository], dry_run: bool) -> RunSummary {
    let mut engine = Reconciliation::new(&discovered.to_vec(), dry_run);
    loop {
        match engine.next_step() {
            RunStep::Query(i) => {
                let r = engine.repository(i);
                let key = (r.owner.clone(), r.name.clone());
                remote.queries += 1;
                let already = remote.starred.contains(&key);
                engine.record_query(already);
            }
            RunStep::Star(i) => {
                let r = engine.repository(i);
                let key = (r.owner.clone(), r.name.clone());
                remote.stars.push(key.clone());
                remote.starred.insert(key);
                engine.record_star();
            }
            RunStep::Finished => return engine.into_summary(),
        }
    }
}

fn flags(summary: &RunSummary) -> Vec<bool> {
    summary.starred.iter().map(|s| s.already_starred).collect()
}

#[test]
fn dedup_keeps_first_record_and_is_idempotent() {
    let xs = vec![
        repo("a", "x", "package.json"),
        repo("b", "y", "go.mod"),
        repo("a", "x", "Cargo.toml"),
        repo("A", "x", "pom.xml"),
    ];
    let once = dedup_repositories(&xs);
    assert_eq!(once.len(), 3);
    assert_eq!(once[0].via.as_deref(), Some("package.json"));
    assert_eq!(once[2].owner, "A");
    let twice = dedup_repositories(&once);
    assert_eq!(twice, once);
}

#[test]
fn dedup_of_empty_list_is_empty() {
    assert!(dedup_repositories(&Vec::new()).is_empty());
}

#[test]
fn merge_keeps_declared_order() {
    let r1 = repo("o", "one", "package.json");
    let r2 = repo("o", "two", "go.mod");
    let merged: Result<Vec<Repository>, String> =
        merge_discoveries(vec![Ok(vec![r1.clone()]), Ok(vec![r2.clone()])]);
    assert_eq!(merged.unwrap(), vec![r1, r2]);
}

#[test]
fn merge_fails_on_first_error_in_declared_order() {
    let r1 = repo("o", "one", "package.json");
    let merged: Result<Vec<Repository>, String> = merge_discoveries(vec![
        Ok(vec![r1]),
        Err("second".to_string()),
        Err("third".to_string()),
    ]);
    assert_eq!(merged.unwrap_err(), "second");
}

#[test]
fn merge_of_no_results_is_empty() {
    let merged: Result<Vec<Repository>, String> = merge_discoveries(vec![]);
    assert!(merged.unwrap().is_empty());
}

#[test]
fn second_run_stars_nothing() {
    let discovered = vec![repo("a", "x", "package.json"), repo("b", "y", "go.mod")];
    let mut remote = Remote::new(&[("b", "y")]);
    let first = run(&mut remote, &discovered, false);
    assert_eq!(flags(&first), vec![false, true]);
    assert_eq!(remote.stars, vec![("a".to_string(), "x".to_string())]);
    let second = run(&mut remote, &discovered, false);
    assert_eq!(flags(&second), vec![true, true]);
    assert_eq!(remote.stars.len(), 1);
    let third = run(&mut remote, &discovered, false);
    assert_eq!(flags(&third), flags(&second));
}

#[test]
fn dry_run_queries_but_never_stars() {
    let discovered = vec![repo("a", "x", "package.json"), repo("b", "y", "go.mod")];
    let mut remote = Remote::new(&[("b", "y")]);
    let summary = run(&mut remote, &discovered, true);
    assert_eq!(remote.queries, 2);
    assert!(remote.stars.is_empty());
    assert_eq!(flags(&summary), vec![false, true]);
}

#[test]
fn one_dependency_end_to_end() {
    let found = parse_github_repository("https://github.com/example/dep").unwrap();
    assert_eq!((found.owner.as_str(), found.name.as_str()), ("example", "dep"));
    let discovered = merge_discoveries::<String>(vec![Ok(vec![found.with_via("package.json")])]).unwrap();
    let mut remote = Remote::new(&[]);
    let summary = run(&mut remote, &discovered, false);
    assert_eq!(remote.stars, vec![("example".to_string(), "dep".to_string())]);
    assert_eq!(summary.starred.len(), 1);
    assert!(!summary.starred[0].already_starred);
}

#[test]
fn failed_discovery_leaves_nothing_to_reconcile() {
    let merged: Result<Vec<Repository>, String> = merge_discoveries(vec![
        Ok(vec![repo("a", "x", "package.json")]),
        Err("go.mod unreadable".to_string()),
    ]);
    assert!(merged.is_err());
}

#[test]
fn empty_run_finishes_at_once() {
    let engine = Reconciliation::new(&Vec::new(), false);
    assert_eq!(engine.total(), 0);
    assert_eq!(engine.next_step(), RunStep::Finished);
    assert!(engine.into_summary().starred.is_empty());
}

#[test]
fn duplicates_are_processed_once() {
    let discovered = vec![repo("example", "repo", "package.json"), repo("example", "repo", "package.json")];
    let mut remote = Remote::new(&[]);
    let summary = run(&mut remote, &discovered, false);
    assert_eq!(summary.starred.len(), 1);
    assert_eq!(remote.stars.len(), 1);
    assert_eq!(summary.starred[0].repository.owner, "example");
}

#[test]
fn summary_counts_new_and_already_starred() {
    let discovered = vec![repo("a", "x", "package.json"), repo("b", "y", "go.mod"), repo("c", "z", "pom.xml")];
    let mut remote = Remote::new(&[("b", "y")]);
    let summary = run(&mut remote, &discovered, true);
    assert_eq!(summary.already_starred_count(), 1);
    assert_eq!(summary.newly_starred_count(), 2);
}
