use thanks_stars::config::ConfigManager;
use thanks_stars::ecosystems::composer::ComposerPackage;
use thanks_stars::ecosystems::dart::PubDevPackage;
use thanks_stars::ecosystems::go::{parse_go_module, parse_module_name, parse_requirements};
use thanks_stars::ecosystems::haskell::HackagePackage;
use thanks_stars::ecosystems::jsr::{normalize_jsr_name, parse_jsr_specifier};
use thanks_stars::ecosystems::maven::MavenProject;
use thanks_stars::ecosystems::node::dependency_package_path;
use thanks_stars::ecosystems::python::{normalize_name, normalize_requirement, ProjectUrl, PyPiProject};
use thanks_stars::ecosystems::ruby::{normalize_dependency_name, RubyGem, RubyGemMetadata};

fn s(v: &str) -> Option<String> {
    Some(v.to_string())
}

#[test]
fn parses_hackage_package_urls() {
    let cabal = r#"
name: example
version: 0.1.0.0
homepage: https://github.com/org/project
bug-reports: https://github.com/org/project/issues
source-repository head
  type: git
  location: https://github.com/org/project.git
"#;
    let package = HackagePackage::from_cabal(cabal);
    let urls = package.candidate_urls();
    assert!(urls.contains(&"https://github.com/org/project".to_string()));
    assert!(urls.contains(&"https://github.com/org/project/issues".to_string()));
    assert!(urls.contains(&"https://github.com/org/project.git".to_string()));
}

#[test]
fn cabal_location_counts_only_inside_source_repository() {
    let cabal = "location: https://github.com/a/outside\r\n-- homepage: https://github.com/a/comment\nhomepage: HTTPS://GITHUB.COM/A/B\nbug-reports:  https://github.com/a/b  \n";
    let package = HackagePackage::from_cabal(cabal);
    assert_eq!(package.candidate_urls(), vec!["HTTPS://GITHUB.COM/A/B".to_string()]);
}

#[test]
fn parse_jsr_specifier_handles_versions() {
    assert_eq!(parse_jsr_specifier("jsr:@scope/name"), Some("@scope/name".to_string()));
    assert_eq!(parse_jsr_specifier("jsr:@scope/name@1.0.0"), Some("@scope/name".to_string()));
    assert_eq!(parse_jsr_specifier("jsr:unscoped@^1"), Some("unscoped".to_string()));
    assert_eq!(parse_jsr_specifier("jsr:unscoped"), Some("unscoped".to_string()));
}

#[test]
fn jsr_names_without_prefix_or_content() {
    assert_eq!(parse_jsr_specifier("npm:left-pad"), None);
    assert_eq!(normalize_jsr_name("   "), None);
    assert_eq!(normalize_jsr_name(" @scope/pkg@2 "), Some("@scope/pkg".to_string()));
}

#[test]
fn normalize_requirement_parses_basic_specs() {
    assert_eq!(normalize_requirement("requests>=2"), Some("requests".into()));
    assert_eq!(normalize_requirement("numpy"), Some("numpy".into()));
    assert_eq!(normalize_requirement("uvicorn[standard]==0.30"), Some("uvicorn".into()));
    assert_eq!(
        normalize_requirement("git+https://github.com/org/pkg#egg=pkg"),
        Some("pkg".into())
    );
    assert_eq!(normalize_requirement(""), None);
    assert_eq!(normalize_requirement("# comment"), None);
    assert_eq!(normalize_requirement("-r other.txt"), None);
    assert_eq!(normalize_requirement("https://example.com/pkg.whl"), None);
}

#[test]
fn normalize_name_lowers_and_dashes() {
    assert_eq!(normalize_name("  Django_Rest  "), Some("django-rest".to_string()));
    assert_eq!(normalize_name(" "), None);
    assert_eq!(normalize_requirement("Foo_Bar ; python_version<'3.8'"), Some("foo-bar".to_string()));
}

#[test]
fn normalize_dependency_name_handles_edge_cases() {
    assert_eq!(normalize_dependency_name("arel!"), Some("arel".to_string()));
    assert_eq!(normalize_dependency_name("  foo  "), Some("foo".to_string()));
    assert!(normalize_dependency_name("   ").is_none());
    assert!(normalize_dependency_name(" !! ").is_none());
}

#[test]
fn pypi_candidates_follow_priority_and_skip_duplicates() {
    let project = PyPiProject {
        home_page: s("https://GitHub.com/psf/requests"),
        project_urls: Some(vec![
            ProjectUrl { label: "Documentation".to_string(), url: "https://docs.example".to_string() },
            ProjectUrl { label: "Homepage".to_string(), url: " https://example.org ".to_string() },
            ProjectUrl { label: "Source".to_string(), url: "https://github.com/psf/requests".to_string() },
        ]),
    };
    assert_eq!(
        project.candidate_urls(),
        vec![
            "https://github.com/psf/requests".to_string(),
            "https://example.org".to_string(),
            "https://docs.example".to_string(),
        ]
    );
}

#[test]
fn pubdev_candidates_in_field_order() {
    let package = PubDevPackage {
        repository: s(" https://github.com/example/http "),
        homepage: s("https://github.com/example/HTTP"),
        issue_tracker: s(""),
        documentation: s("https://docs.example"),
    };
    assert_eq!(
        package.candidate_urls(),
        vec!["https://github.com/example/http".to_string(), "https://docs.example".to_string()]
    );
}

#[test]
fn maven_candidates_strip_scm_prefixes() {
    let project = MavenProject {
        urls: vec![
            "scm:git:https://github.com/example/library.git".to_string(),
            "  ".to_string(),
            "https://github.com/Example/Library.git".to_string(),
            "https://example.com".to_string(),
        ],
    };
    assert_eq!(
        project.candidate_urls(),
        vec![
            "https://github.com/example/library.git".to_string(),
            "https://example.com".to_string(),
        ]
    );
}

#[test]
fn ruby_gem_candidates_in_order() {
    let gem = RubyGem {
        source_code_uri: None,
        homepage_uri: s("https://github.com/rails/rails"),
        wiki_uri: s("https://wiki.example"),
        documentation_uri: s("  "),
        bug_tracker_uri: s("https://github.com/rails/rails/issues"),
        metadata: Some(RubyGemMetadata {
            source_code_uri: s("https://github.com/rails/rails/tree/main"),
            homepage_uri: None,
            wiki_uri: None,
            documentation_uri: None,
            bug_tracker_uri: None,
        }),
    };
    assert_eq!(
        gem.candidate_urls(),
        vec![
            "https://github.com/rails/rails".to_string(),
            "https://github.com/rails/rails/issues".to_string(),
            "https://wiki.example".to_string(),
            "https://github.com/rails/rails/tree/main".to_string(),
        ]
    );
}

#[test]
fn composer_candidates_in_order() {
    let package = ComposerPackage {
        source_url: s("https://github.com/vendor/package.git"),
        support_source: None,
        homepage: s("https://github.com/vendor/homepage"),
    };
    assert_eq!(
        package.candidate_urls(),
        vec![
            "https://github.com/vendor/package.git".to_string(),
            "https://github.com/vendor/homepage".to_string(),
        ]
    );
}

#[test]
fn go_requirements_in_blocks_and_lines() {
    let content = "module example.com/project\n\nrequire (\n    github.com/pkg/errors v0.9.1 // indirect\n    golang.org/x/net v0.17.0\n    github.com/org/repo/v2 v2.0.0\n)\nrequire github.com/single/one v1.0.0\n";
    assert_eq!(
        parse_requirements(content),
        vec![
            "github.com/pkg/errors".to_string(),
            "golang.org/x/net".to_string(),
            "github.com/org/repo/v2".to_string(),
            "github.com/single/one".to_string(),
        ]
    );
    assert_eq!(parse_module_name("  // only a comment"), None);
    let repo = parse_go_module("github.com/org/repo/v2").unwrap();
    assert_eq!((repo.owner.as_str(), repo.name.as_str()), ("org", "repo"));
    assert!(parse_go_module("golang.org/x/text").is_none());
    assert!(parse_go_module("github.com/lonely").is_none());
}

#[test]
fn node_package_path() {
    assert_eq!(dependency_package_path("@scope/pkg"), "node_modules/@scope/pkg/package.json");
}

#[test]
fn config_file_lies_in_base_dir() {
    assert_eq!(ConfigManager::with_base_dir("/tmp/cfg").config_file(), "/tmp/cfg/config.toml");
    assert_eq!(ConfigManager::with_base_dir("/tmp/cfg/").config_file(), "/tmp/cfg/config.toml");
    assert_eq!(ConfigManager::with_base_dir("/tmp/cfg").base_dir(), "/tmp/cfg");
}

use thanks_stars::ecosystems::renv::{owner_repo_from_url, RenvPackage};

fn renv_package() -> RenvPackage {
    RenvPackage {
        source: None,
        remote_type: None,
        remote_host: None,
        remote_repo: None,
        remote_url: None,
        repository: None,
        remote_owner: None,
        url: None,
        bug_reports: None,
    }
}

fn pair(a: &str, b: &str) -> Option<(String, String)> {
    Some((a.to_string(), b.to_string()))
}

#[test]
fn renv_remote_fields_give_owner_and_name() {
    let p = RenvPackage {
        source: s("GitHub"),
        remote_type: s("github"),
        remote_owner: s("r-lib"),
        remote_repo: s("pkg"),
        ..renv_package()
    };
    assert!(p.is_github_source());
    assert_eq!(p.github_owner_repo(), pair("r-lib", "pkg"));
    let q = RenvPackage { remote_type: s("GITHUB"), remote_repo: s(" acme/widget.git "), ..renv_package() };
    assert_eq!(q.owner_repo_from_remote_fields(), pair("acme", "widget"));
}

#[test]
fn renv_skips_packages_not_from_github() {
    let p = RenvPackage {
        source: s("CRAN"),
        repository: s("https://cran.r-project.org"),
        ..renv_package()
    };
    assert!(!p.is_github_source());
    assert_eq!(p.github_owner_repo(), None);
}

#[test]
fn renv_reads_api_and_listed_urls() {
    let api = RenvPackage {
        source: s("GitHub"),
        remote_type: s("github"),
        remote_url: s("https://api.github.com/repos/acme/widget/tarball/HEAD"),
        ..renv_package()
    };
    assert_eq!(api.github_owner_repo(), pair("acme", "widget"));
    let listed = RenvPackage {
        source: s("Repository"),
        url: s("https://example.com/docs, https://github.com/example/pkg"),
        ..renv_package()
    };
    assert_eq!(listed.github_owner_repo(), pair("example", "pkg"));
    let bugs = RenvPackage {
        source: s("Repository"),
        bug_reports: s("https://github.com/example/pkg/issues"),
        ..renv_package()
    };
    assert_eq!(bugs.github_owner_repo(), pair("example", "pkg"));
    assert_eq!(owner_repo_from_url("https://codeload.github.com/acme/tool.git/tar.gz/main"), pair("acme", "tool"));
    assert_eq!(owner_repo_from_url("https://api.github.com/users/acme"), None);
}

use thanks_stars::ecosystems::haskell::{parse_cabal_dependencies, parse_dependency_name};
use thanks_stars::ecosystems::ruby::gemfile_lock_dependencies;

#[test]
fn cabal_build_depends_spans_lines() {
    let cabal = "\nname: example\nversion: 0.1.0.0\nbuild-depends: text >= 1.2,\n               bytestring -- comment\n";
    assert_eq!(parse_cabal_dependencies(cabal), vec!["text".to_string(), "bytestring".to_string()]);
    let tools = "library\n  build-tool-depends: hspec-discover:hspec-discover\n  -- build-depends: ignored\n  , happy\n  other-modules: X\n";
    assert_eq!(
        parse_cabal_dependencies(tools),
        vec!["hspec-discover".to_string(), "happy".to_string()]
    );
}

#[test]
fn dependency_names_skip_versions_and_digits() {
    assert_eq!(parse_dependency_name(" base (>=4 && <5) "), Some("base".to_string()));
    assert_eq!(parse_dependency_name("4.2"), None);
    assert_eq!(parse_dependency_name("   "), None);
}

#[test]
fn gemfile_lock_lists_dependencies_section() {
    let lock = "GEM\n  remote: https://rubygems.org/\n  specs:\n    rack (2.2.3)\n\nDEPENDENCIES\n  rack (= 2.2.3)\n  nokogiri!\n\nBUNDLED WITH\n   2.5.0\n";
    assert_eq!(gemfile_lock_dependencies(lock), vec!["rack".to_string(), "nokogiri".to_string()]);
    assert!(gemfile_lock_dependencies("GEM\n  specs:\n").is_empty());
}

use thanks_stars::ecosystems::python::requirement_names;

#[test]
fn requirements_file_lists_packages_in_order() {
    let content = "requests>=2.0\n# pinned\nuvicorn[standard]==0.30\n-r base.txt\r\nDjango_Rest\n";
    assert_eq!(
        requirement_names(content),
        vec!["requests".to_string(), "uvicorn".to_string(), "django-rest".to_string()]
    );
}

use thanks_stars::ecosystems::gradle::build_script_coordinates;
use thanks_stars::ecosystems::ruby::gemfile_dependencies;

#[test]
fn gemfile_declarations_in_order() {
    assert_eq!(
        gemfile_dependencies("source 'https://rubygems.org'\n\ngem \"rails\"\n"),
        vec!["rails".to_string()]
    );
    assert_eq!(
        gemfile_dependencies("gem \"rails\"\n        gem 'pg', '~> 1.5'\n        gem \"\"\n  # gem 'skipped'\n"),
        vec!["rails".to_string(), "pg".to_string()]
    );
}

#[test]
fn build_script_quoted_coordinates() {
    let script = "dependencies {\n  implementation(\"com.example:library:1.2.3\")\n  testImplementation 'org.junit:junit:4.13+'\n  implementation project(':core')\n}\n";
    let found: Vec<(String, String, String)> = build_script_coordinates(script)
        .into_iter()
        .map(|c| (c.group, c.artifact, c.version))
        .collect();
    assert_eq!(
        found,
        vec![
            ("com.example".to_string(), "library".to_string(), "1.2.3".to_string()),
            ("org.junit".to_string(), "junit".to_string(), "4.13+".to_string()),
        ]
    );
}

use thanks_stars::ecosystems::gradle::Coordinate;
use thanks_stars::ecosystems::maven::{is_resolvable, parse_pom, XmlEvent};

fn xml(spec: &[(&str, &str)]) -> Vec<XmlEvent> {
    spec.iter()
        .map(|(kind, text)| match *kind {
            "<" => XmlEvent::Start(text.to_string()),
            ">" => XmlEvent::End(text.to_string()),
            _ => XmlEvent::Text(text.to_string()),
        })
        .collect()
}

#[test]
fn pom_events_give_dependencies_modules_and_urls() {
    let events = xml(&[
        ("<", "project"),
        ("<", "url"), ("t", " https://github.com/example/library "), (">", "url"),
        ("<", "scm"),
        ("<", "connection"), ("t", "scm:git:https://github.com/example/library.git"), (">", "connection"),
        (">", "scm"),
        ("<", "modules"), ("<", "module"), ("t", "module-a"), (">", "module"), (">", "modules"),
        ("<", "dependencies"),
        ("<", "dependency"),
        ("<", "groupId"), ("t", "com.example"), (">", "groupId"),
        ("<", "artifactId"), ("t", "library"), (">", "artifactId"),
        ("<", "version"), ("t", "1.2.3"), (">", "version"),
        (">", "dependency"),
        ("<", "dependency"),
        ("<", "groupId"), ("t", "com.example"), (">", "groupId"),
        ("<", "artifactId"), ("t", "no-version"), (">", "artifactId"),
        (">", "dependency"),
        (">", "dependencies"),
        ("<", "build"), ("<", "plugins"), ("<", "plugin"), ("<", "dependencies"),
        ("<", "dependency"),
        ("<", "groupId"), ("t", "org.plugin"), (">", "groupId"),
        ("<", "artifactId"), ("t", "helper"), (">", "artifactId"),
        ("<", "version"), ("t", "1.0"), (">", "version"),
        (">", "dependency"),
        (">", "dependencies"), (">", "plugin"), (">", "plugins"), (">", "build"),
        (">", "project"),
    ]);
    let contents = parse_pom(&events);
    assert_eq!(
        contents.dependencies,
        vec![Coordinate {
            group: "com.example".to_string(),
            artifact: "library".to_string(),
            version: "1.2.3".to_string(),
        }]
    );
    assert_eq!(contents.modules, vec!["module-a".to_string()]);
    let project = MavenProject::from_events(&events);
    assert_eq!(
        project.urls,
        vec![
            "https://github.com/example/library".to_string(),
            "scm:git:https://github.com/example/library.git".to_string(),
        ]
    );
}

#[test]
fn property_and_range_versions_are_not_resolvable() {
    let c = |v: &str| Coordinate {
        group: "g".to_string(),
        artifact: "a".to_string(),
        version: v.to_string(),
    };
    assert!(is_resolvable(&c("1.0")));
    assert!(!is_resolvable(&c("${project.version}")));
    assert!(!is_resolvable(&c("[1.0,2.0)")));
    assert!(!is_resolvable(&c("")));
}

use thanks_stars::ecosystems::go::go_mod_repositories;

#[test]
fn discovers_github_dependencies() {
    let content = "module example.com/project\n\nrequire (\n    github.com/pkg/errors v0.9.1\n    golang.org/x/net v0.17.0\n    github.com/org/repo/v2 v2.0.0\n)\n";
    let repos = go_mod_repositories(content);
    let owners: Vec<_> = repos
        .iter()
        .map(|repo| (repo.owner.as_str(), repo.name.as_str()))
        .collect();
    assert_eq!(owners, vec![("org", "repo"), ("pkg", "errors")]);
    assert!(repos.iter().all(|repo| repo.via.as_deref() == Some("go.mod")));
}

#[test]
fn skips_non_github_modules() {
    assert!(go_mod_repositories("module example\n\nrequire golang.org/x/text v0.15.0\n").is_empty());
}

use thanks_stars::ecosystems::composer::composer_repositories;
use thanks_stars::ecosystems::renv::renv_repositories;

#[test]
fn discovers_repositories_from_packages() {
    let packages = vec![
        ComposerPackage {
            source_url: s("https://github.com/vendor/package.git"),
            support_source: None,
            homepage: None,
        },
        ComposerPackage {
            source_url: None,
            support_source: s("https://github.com/vendor/dev-package"),
            homepage: None,
        },
        ComposerPackage { source_url: None, support_source: None, homepage: s("https://github.com/vendor/homepage") },
        ComposerPackage {
            source_url: None,
            support_source: None,
            homepage: s("https://example.com/vendor/non-github"),
        },
        ComposerPackage {
            source_url: s("https://github.com/vendor/package"),
            support_source: None,
            homepage: None,
        },
    ];
    let mut repos = composer_repositories(&packages);
    repos.sort_by(|a, b| a.name.cmp(&b.name));
    assert_eq!(repos.len(), 3);
    assert_eq!(repos[0].name, "dev-package");
    assert_eq!(repos[1].name, "homepage");
    assert_eq!(repos[2].name, "package");
    for repo in repos {
        assert_eq!(repo.via.as_deref(), Some("composer.lock"));
    }
}

#[test]
fn discovers_repositories_from_github_packages() {
    let packages = vec![
        RenvPackage {
            source: s("GitHub"),
            remote_type: s("github"),
            remote_owner: s("r-lib"),
            remote_repo: s("pkg"),
            ..renv_package()
        },
        RenvPackage { source: s("GitHub"), remote_type: s("github"), remote_owner: s("r-lib"), remote_repo: s("pkg.git"), ..renv_package() },
    ];
    let repos = renv_repositories(&packages);
    assert_eq!(repos.len(), 1);
    assert_eq!(repos[0].owner, "r-lib");
    assert_eq!(repos[0].name, "pkg");
    assert_eq!(repos[0].via.as_deref(), Some("renv.lock"));
}

#[test]
fn skips_non_github_packages() {
    let packages = vec![RenvPackage {
        source: s("CRAN"),
        repository: s("https://cran.r-project.org"),
        ..renv_package()
    }];
    assert!(renv_repositories(&packages).is_empty());
}
