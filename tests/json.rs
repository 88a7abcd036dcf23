use thanks_stars::json::{
    collect_jsr_packages_from_deno_config, collect_jsr_packages_from_jsr_manifest,
    collect_jsr_packages_from_lock, member_key_names, repository_from_package, Json,
};

fn st(s: &str) -> Json {
    Json::Str(s.to_string())
}

fn obj(entries: Vec<(&str, Json)>) -> Json {
    Json::Object(entries.into_iter().map(|(k, v)| (k.to_string(), v)).collect())
}

#[test]
fn deno_config_reads_imports_and_jsr_strings() {
    let config = obj(vec![
        (
            "imports",
            obj(vec![
                ("@std/assert", st("jsr:@std/assert@^1.0.0")),
                ("jsr:@scope/pkg", st("./local.ts")),
            ]),
        ),
        ("tasks", obj(vec![("test", st("deno test"))])),
        ("extra", Json::Array(vec![st("jsr:@types/testing@1"), Json::Number("3".to_string())])),
    ]);
    assert_eq!(
        collect_jsr_packages_from_deno_config(&config),
        vec![
            "@std/assert".to_string(),
            "@scope/pkg".to_string(),
            "@std/assert".to_string(),
            "@types/testing".to_string(),
        ]
    );
}

#[test]
fn jsr_manifest_reads_dependency_sections() {
    let manifest = obj(vec![
        ("name", st("@example/app")),
        (
            "dependencies",
            obj(vec![("@std/assert", st("^1.0.0")), ("unscoped", st("jsr:unscoped@2"))]),
        ),
        ("devDependencies", obj(vec![("@scope/dev", st("1"))])),
    ]);
    assert_eq!(
        collect_jsr_packages_from_jsr_manifest(&manifest),
        vec![
            "@std/assert".to_string(),
            "unscoped".to_string(),
            "unscoped".to_string(),
            "@scope/dev".to_string(),
            "unscoped".to_string(),
        ]
    );
}

#[test]
fn deno_lock_reads_specifiers_and_jsr_entries() {
    let lock = obj(vec![(
        "packages",
        obj(vec![
            ("specifiers", obj(vec![("jsr:@scope/pkg", st("jsr:@scope/pkg@1.0.0"))])),
            (
                "jsr",
                obj(vec![(
                    "@other/dep@2.0.0",
                    obj(vec![("dependencies", obj(vec![("x", st("jsr:@std/fmt@1"))]))]),
                )]),
            ),
            ("npm", obj(vec![("left-pad@1.0.0", obj(vec![]))])),
        ]),
    )]);
    assert_eq!(
        collect_jsr_packages_from_lock(&lock),
        vec![
            "@scope/pkg".to_string(),
            "@scope/pkg".to_string(),
            "@other/dep".to_string(),
            "@std/fmt".to_string(),
        ]
    );
    assert!(collect_jsr_packages_from_lock(&Json::Null).is_empty());
}

#[test]
fn package_manifests_point_to_sources() {
    let plain = obj(vec![("repository", st("git+https://github.com/left-pad/left-pad.git"))]);
    assert_eq!(
        repository_from_package(&plain),
        Some("git+https://github.com/left-pad/left-pad.git".to_string())
    );
    let nested = obj(vec![
        ("repository", obj(vec![("type", st("git")), ("url", st("https://github.com/scope/pkg"))])),
        ("homepage", st("https://example.com")),
    ]);
    assert_eq!(repository_from_package(&nested), Some("https://github.com/scope/pkg".to_string()));
    let fallback = obj(vec![
        ("repository", obj(vec![("type", st("git"))])),
        ("homepage", st("https://example.com")),
    ]);
    assert_eq!(repository_from_package(&fallback), Some("https://example.com".to_string()));
    assert_eq!(repository_from_package(&Json::Null), None);
    let manifest = obj(vec![("dependencies", obj(vec![("dep-one", st("^1.0.0")), ("dep-two", st("^1.0.0"))]))]);
    assert_eq!(
        member_key_names(&manifest, "dependencies"),
        vec!["dep-one".to_string(), "dep-two".to_string()]
    );
    assert!(member_key_names(&manifest, "devDependencies").is_empty());
}

use thanks_stars::ecosystems::python::{pipfile_lock_names, pipfile_names, pyproject_names, uv_lock_names};

fn arr(items: Vec<Json>) -> Json {
    Json::Array(items)
}

fn names(items: &[&str]) -> Vec<String> {
    items.iter().map(|s| s.to_string()).collect()
}

#[test]
fn pyproject_lists_project_poetry_and_uv_dependencies() {
    let doc = obj(vec![
        (
            "project",
            obj(vec![
                ("dependencies", arr(vec![st("Requests>=2.0")])),
                ("optional-dependencies", obj(vec![("dev", arr(vec![st("httpx==0.27")]))])),
            ]),
        ),
        (
            "tool",
            obj(vec![
                (
                    "poetry",
                    obj(vec![
                        ("dependencies", obj(vec![("python", st("^3.11")), ("numpy", st("^1.26"))])),
                        (
                            "group",
                            obj(vec![("dev", obj(vec![("dependencies", obj(vec![("pytest", st("^7.0"))]))]))]),
                        ),
                    ]),
                ),
                ("uv", obj(vec![("workspace", obj(vec![("dependencies", arr(vec![st("Ruff_Lint")]))]))])),
            ]),
        ),
    ]);
    assert_eq!(
        pyproject_names(&doc),
        names(&["requests", "httpx", "numpy", "pytest", "ruff-lint"])
    );
}

#[test]
fn pipfiles_and_uv_lock_list_package_names() {
    let pipfile = obj(vec![
        ("packages", obj(vec![("fastapi", st("*"))])),
        ("dev-packages", obj(vec![("ruff", st("*"))])),
    ]);
    assert_eq!(pipfile_names(&pipfile), names(&["fastapi", "ruff"]));
    let lock = obj(vec![
        ("default", obj(vec![("starlette", obj(vec![("version", st("==0.37"))]))])),
        ("develop", obj(vec![("mypy", obj(vec![("version", st("==1.8"))]))])),
    ]);
    assert_eq!(pipfile_lock_names(&lock), names(&["starlette", "mypy"]));
    let uv = obj(vec![
        ("version", Json::Number("1".to_string())),
        ("package", arr(vec![obj(vec![("name", st("httpcore"))]), obj(vec![("name", st("uvicorn"))])])),
    ]);
    assert_eq!(uv_lock_names(&uv), names(&["httpcore", "uvicorn"]));
}

use thanks_stars::ecosystems::dart::pubspec_dependencies;
use thanks_stars::ecosystems::haskell::package_yaml_dependencies;

#[test]
fn pubspec_splits_hosted_and_git_dependencies() {
    let doc = obj(vec![
        ("name", st("example")),
        (
            "dependencies",
            obj(vec![
                ("http", st("^1.0.0")),
                ("flutter", obj(vec![("sdk", st("flutter"))])),
                ("awesome", obj(vec![("git", obj(vec![("url", st("https://github.com/example/awesome.git"))]))])),
                ("local", obj(vec![("path", st("../local"))])),
                ("pinned", obj(vec![("version", st("1.2.3"))])),
            ]),
        ),
        ("dev_dependencies", obj(vec![("lints", Json::Null)])),
        ("dependency_overrides", obj(vec![("git_dep", obj(vec![("git", st("https://github.com/example/git_dep"))]))])),
    ]);
    let found = pubspec_dependencies(&doc);
    assert_eq!(found.hosted, names(&["http", "pinned", "lints"]));
    assert_eq!(
        found.git_urls,
        names(&["https://github.com/example/awesome.git", "https://github.com/example/git_dep"])
    );
}

#[test]
fn package_yaml_lists_strings_and_tables() {
    let doc = obj(vec![(
        "dependencies",
        arr(vec![
            st("text >= 1.2"),
            obj(vec![("package", st("bytestring")), ("version", st(">=0.11"))]),
            obj(vec![("name", st("containers"))]),
            Json::Number("7".to_string()),
        ]),
    )]);
    assert_eq!(package_yaml_dependencies(&doc), names(&["text", "bytestring", "containers"]));
    let single = obj(vec![("dependencies", st("base"))]);
    assert_eq!(package_yaml_dependencies(&single), names(&["base"]));
}
