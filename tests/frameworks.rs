use thanks_stars::discovery::{detect_frameworks, Framework};

fn names(items: &[&str]) -> Vec<String> {
    items.iter().map(|s| s.to_string()).collect()
}

#[test]
fn detects_no_framework_in_an_empty_root() {
    assert!(detect_frameworks(&vec![], &vec![]).is_empty());
}

#[test]
fn detects_frameworks_in_fixed_order() {
    let entries = names(&["pom.xml", "go.mod", "package.json", "deno.jsonc", "uv.lock", "Gemfile.lock"]);
    assert_eq!(
        detect_frameworks(&entries, &entries),
        vec![
            Framework::Node,
            Framework::Deno,
            Framework::Go,
            Framework::Ruby,
            Framework::Python,
            Framework::Maven
        ]
    );
}

#[test]
fn detects_haskell_by_cabal_file_in_any_case() {
    let files = names(&["example.CABAL"]);
    assert_eq!(detect_frameworks(&files, &files), vec![Framework::Haskell]);
    let hidden = names(&[".cabal"]);
    assert!(detect_frameworks(&hidden, &hidden).is_empty());
    let dirs = names(&["dir.cabal"]);
    assert!(detect_frameworks(&dirs, &vec![]).is_empty());
}

#[test]
fn detects_every_marker() {
    let entries = names(&[
        "package.json",
        "jsr.json",
        "Cargo.toml",
        "go.mod",
        "pubspec.yaml",
        "composer.json",
        "Gemfile",
        "requirements.txt",
        "build.gradle.kts",
        "pom.xml",
        "renv.lock",
        "stack.yaml",
    ]);
    assert_eq!(detect_frameworks(&entries, &vec![]).len(), 12);
}
