use thanks_stars::discovery::{parse_github_repository, Repository};

#[test]
fn parses_https_url() {
    let repo = parse_github_repository("https://github.com/owner/repo").unwrap();
    assert_eq!(repo.owner, "owner");
    assert_eq!(repo.name, "repo");
}

#[test]
fn parses_git_plus_url_and_strips_git_suffix() {
    let repo = parse_github_repository("git+https://github.com/owner/repo.git").unwrap();
    assert_eq!(repo.owner, "owner");
    assert_eq!(repo.name, "repo");
}

#[test]
fn parses_owner_repo_shorthand() {
    let repo = parse_github_repository("owner/repo").unwrap();
    assert_eq!(repo.url, "https://github.com/owner/repo");
}

#[test]
fn returns_none_for_non_github_url() {
    assert!(parse_github_repository("https://example.com/owner/repo").is_none());
}

fn expected(owner: &str, name: &str) -> Repository {
    Repository {
        owner: owner.to_string(),
        name: name.to_string(),
        url: format!("https://github.com/{owner}/{name}"),
        via: None,
    }
}

#[test]
fn every_reference_form_names_the_same_repository() {
    for input in [
        "owner/repo",
        "https://github.com/owner/repo",
        "git+https://github.com/owner/repo.git",
        "github:owner/repo",
        "git@github.com:owner/repo.git",
    ] {
        assert_eq!(parse_github_repository(input), Some(expected("owner", "repo")), "{input}");
    }
}

#[test]
fn keeps_the_case_of_owner_and_name() {
    assert_eq!(
        parse_github_repository("  GitHub:Some-Org/My.Repo  "),
        None,
    );
    assert_eq!(
        parse_github_repository("  github:Some-Org/My.Repo  "),
        Some(expected("Some-Org", "My.Repo"))
    );
}

#[test]
fn rejects_malformed_references() {
    for input in [
        "",
        "   ",
        "owner",
        "owner/",
        "/repo",
        "a/b/c",
        "owner/.git",
        "file:///home/owner/repo",
        "https://github.com/owner",
        "https://gitlab.com/owner/repo",
        "github:owner",
    ] {
        assert_eq!(parse_github_repository(input), None, "{input}");
    }
}

#[test]
fn reads_first_two_url_segments_and_skips_empty_ones() {
    assert_eq!(
        parse_github_repository("https://github.com//owner//repo/tree/main"),
        Some(expected("owner", "repo"))
    );
    assert_eq!(
        parse_github_repository("https://github.com/owner/repo.git.git"),
        Some(expected("owner", "repo"))
    );
}

#[test]
fn trims_slashes_around_shorthand() {
    assert_eq!(parse_github_repository("/owner/repo/"), Some(expected("owner", "repo")));
}

#[test]
fn sets_provenance_label() {
    let repo = parse_github_repository("owner/repo").unwrap().with_via("package.json");
    assert_eq!(repo.via.as_deref(), Some("package.json"));
}
