use thanks_stars::ecosystems::gradle::lockfile_coordinate;
use thanks_stars::github::{graphql_outcome, star_succeeded};

#[test]
fn star_accepts_success_and_not_modified() {
    assert!(star_succeeded(204));
    assert!(star_succeeded(200));
    assert!(star_succeeded(304));
    assert!(!star_succeeded(401));
    assert!(!star_succeeded(302));
}

#[test]
fn graphql_outcome_reports_flag_or_errors() {
    assert_eq!(graphql_outcome(200, None, Some(true)).unwrap(), true);
    let err = graphql_outcome(200, Some(vec!["boom".to_string(), "bang".to_string()]), Some(true))
        .unwrap_err();
    assert_eq!((err.status, err.body.as_str()), (200, "boom, bang"));
    let missing = graphql_outcome(200, None, None).unwrap_err();
    assert_eq!(missing.body, "repository data missing from GraphQL response");
}

#[test]
fn gradle_lockfile_lines() {
    let c = lockfile_coordinate("com.example:library:1.2.3=runtimeClasspath").unwrap();
    assert_eq!(
        (c.group.as_str(), c.artifact.as_str(), c.version.as_str()),
        ("com.example", "library", "1.2.3")
    );
    let d = lockfile_coordinate("  org.x:y:2.0@jar ").unwrap();
    assert_eq!(d.version, "2.0");
    assert!(lockfile_coordinate("# comment").is_none());
    assert!(lockfile_coordinate("empty=").is_none());
    assert!(lockfile_coordinate("a:b").is_none());
    assert!(lockfile_coordinate("a::1").is_none());
}
