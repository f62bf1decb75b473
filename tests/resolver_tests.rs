use phpx::resolver::{
    GitHubAsset, GitHubRelease, PackagistVersion, ResolveStage, ResolvedTool, ToolIdentifier,
    ToolResolver,
};
use phpx::Error;

fn id(name: &str, constraint: Option<&str>, version: Option<&str>) -> ToolIdentifier {
    ToolIdentifier {
        name: name.to_string(),
        version_constraint: constraint.map(|s| s.to_string()),
        version: version.map(|s| s.to_string()),
    }
}

fn pv(version: &str, kind: &str, bin: Option<Vec<&str>>) -> PackagistVersion {
    PackagistVersion {
        version: version.to_string(),
        dist_url: format!("https://example.org/{}.{}", version, kind),
        dist_type: kind.to_string(),
        bin: bin.map(|b| b.into_iter().map(|s| s.to_string()).collect()),
    }
}

fn release(tag: &str, assets: &[&str]) -> GitHubRelease {
    GitHubRelease {
        tag_name: tag.to_string(),
        assets: assets
            .iter()
            .map(|a| GitHubAsset {
                name: a.to_string(),
                download_url: format!("https://dl.example.org/{}/{}", tag, a),
            })
            .collect(),
    }
}

#[test]
fn parse_caret_version_sets_constraint() {
    let resolver = ToolResolver::new();
    let id = resolver.parse_identifier("php-cs-fixer@^3.14").unwrap();
    assert!(
        id.version_constraint.is_some(),
        "^3.14 should be parsed as version_constraint, got version={:?}",
        id.version
    );
}

#[test]
fn parse_bare_name_has_no_version() {
    let id = ToolResolver::new().parse_identifier("phpstan").unwrap();
    assert_eq!(id.name, "phpstan");
    assert!(id.version_constraint.is_none());
    assert!(id.version.is_none());
}

#[test]
fn parse_latest_is_a_marker() {
    let id = ToolResolver::new().parse_identifier("rector@latest").unwrap();
    assert_eq!(id.name, "rector");
    assert!(id.version_constraint.is_none());
    assert_eq!(id.version.as_deref(), Some("latest"));
}

#[test]
fn parse_non_range_keeps_literal() {
    let id = ToolResolver::new().parse_identifier("tool@dev-main_2024!").unwrap();
    assert_eq!(id.name, "tool");
    assert!(id.version_constraint.is_none());
    assert_eq!(id.version.as_deref(), Some("dev-main_2024!"));
}

#[test]
fn parse_range_keeps_text() {
    let id = ToolResolver::new().parse_identifier("psalm@>=5.0, <6").unwrap();
    assert_eq!(id.version_constraint.as_deref(), Some(">=5.0, <6"));
    assert!(id.version.is_none());
}

#[test]
fn parse_two_at_signs_is_invalid() {
    let r = ToolResolver::new().parse_identifier("a@1.0@2.0");
    assert!(matches!(r, Err(Error::InvalidToolIdentifier(_))));
}

#[test]
fn registry_range_picks_highest_in_range() {
    let versions = vec![
        pv("1.9.0", "path", None),
        pv("1.10.0", "path", None),
        pv("2.0.0", "path", None),
    ];
    let r = ToolResolver::new().resolve_packagist_listing(&id("tool", Some("^1.0"), None), "tool/tool", &versions);
    match r {
        Some(ResolvedTool::Phar(t)) => {
            assert_eq!(t.version, "1.10.0");
            assert_eq!(t.name, "tool");
            assert_eq!(t.download_url, "https://example.org/1.10.0.path");
        }
        _ => panic!("expected a single file"),
    }
}

#[test]
fn registry_latest_picks_highest_version() {
    let versions = vec![
        pv("2.0.0", "path", None),
        pv("dev-master", "path", None),
        pv("10.1.0", "path", None),
        pv("9.9.9", "path", None),
    ];
    let r = ToolResolver::new().resolve_packagist_listing(&id("tool", None, None), "tool/tool", &versions);
    match r {
        Some(ResolvedTool::Phar(t)) => assert_eq!(t.version, "10.1.0"),
        _ => panic!("expected a single file"),
    }
}

#[test]
fn registry_exact_literal_must_be_listed() {
    let versions = vec![pv("1.0.0", "path", None), pv("dev-master", "path", None)];
    let r = ToolResolver::new().resolve_packagist_listing(&id("tool", None, Some("dev-master")), "t/t", &versions);
    match r {
        Some(ResolvedTool::Phar(t)) => assert_eq!(t.version, "dev-master"),
        _ => panic!("expected a single file"),
    }
    let missing = ToolResolver::new().resolve_packagist_listing(&id("tool", None, Some("3.0.0")), "t/t", &versions);
    assert!(missing.is_none());
}

#[test]
fn registry_range_without_match_is_none() {
    let versions = vec![pv("1.0.0", "path", None)];
    let r = ToolResolver::new().resolve_packagist_listing(&id("tool", Some("^2"), None), "t/t", &versions);
    assert!(r.is_none());
}

#[test]
fn registry_single_file_kind_is_phar() {
    let versions = vec![pv("1.0.0", "path", None)];
    let r = ToolResolver::new().resolve_packagist_listing(&id("tool", None, None), "vendor/tool", &versions);
    assert!(matches!(r, Some(ResolvedTool::Phar(_))));
}

#[test]
fn registry_archive_without_bin_defaults_to_last_segment() {
    let versions = vec![pv("1.2.0", "zip", None)];
    let r = ToolResolver::new().resolve_packagist_listing(&id("rector", None, None), "rector/rector", &versions);
    match r {
        Some(ResolvedTool::Composer(p)) => {
            assert_eq!(p.package, "rector/rector");
            assert_eq!(p.version, "1.2.0");
            assert_eq!(p.bin_names, vec!["rector".to_string()]);
        }
        _ => panic!("expected a package"),
    }
}

#[test]
fn registry_archive_bin_keeps_last_segment() {
    let versions = vec![pv("1.2.0", "zip", Some(vec!["bin/rector", "tool"]))];
    let r = ToolResolver::new().resolve_packagist_listing(&id("rector", None, None), "rector/rector", &versions);
    match r {
        Some(ResolvedTool::Composer(p)) => assert_eq!(p.bin_names, vec!["rector".to_string(), "tool".to_string()]),
        _ => panic!("expected a package"),
    }
}

#[test]
fn registry_unknown_kind_is_none() {
    let versions = vec![pv("1.2.0", "git", None)];
    let r = ToolResolver::new().resolve_packagist_listing(&id("x", None, None), "x/x", &versions);
    assert!(r.is_none());
}

#[test]
fn variants_of_hyphenated_name() {
    let v = ToolResolver::github_owner_repo_variants("php-cs-fixer");
    let expect: Vec<(String, String)> = vec![
        ("php-cs-fixer".into(), "php-cs-fixer".into()),
        ("Php-Cs-Fixer".into(), "Php-Cs-Fixer".into()),
        ("PHP-CS-Fixer".into(), "PHP-CS-Fixer".into()),
    ];
    assert_eq!(v, expect);
}

#[test]
fn variants_of_vendor_name() {
    let v = ToolResolver::github_owner_repo_variants("laravel/pint");
    let expect: Vec<(String, String)> = vec![
        ("laravel".into(), "pint".into()),
        ("Laravel".into(), "Pint".into()),
    ];
    assert_eq!(v, expect);
}

#[test]
fn variants_of_scoped_short_parts() {
    let v = ToolResolver::github_owner_repo_variants("php/cs");
    let expect: Vec<(String, String)> = vec![
        ("php".into(), "cs".into()),
        ("Php".into(), "Cs".into()),
        ("PHP".into(), "CS".into()),
    ];
    assert_eq!(v, expect);
}

#[test]
fn variants_of_capitalised_name() {
    let v = ToolResolver::github_owner_repo_variants("Psalm");
    assert_eq!(v, vec![("Psalm".to_string(), "Psalm".to_string())]);
}

#[test]
fn owner_repo_split() {
    assert_eq!(
        ToolResolver::github_owner_repo("a/b/c"),
        ("a".to_string(), "b/c".to_string())
    );
    assert_eq!(
        ToolResolver::github_owner_repo("phpstan"),
        ("phpstan".to_string(), "phpstan".to_string())
    );
}

#[test]
fn releases_range_selects_highest_match_with_phar() {
    let releases = vec![
        release("v2.0.0", &["tool.phar"]),
        release("v1.10.0", &["tool.phar", "tool.phar.asc"]),
        release("v1.9.0", &["tool.phar"]),
    ];
    let r = ToolResolver::new()
        .resolve_github_releases(&id("tool", Some("^1.0"), None), &releases)
        .unwrap();
    assert_eq!(r.version, "1.10.0");
    assert_eq!(r.download_url, "https://dl.example.org/v1.10.0/tool.phar");
    assert_eq!(
        r.signature_url.as_deref(),
        Some("https://dl.example.org/v1.10.0/tool.phar.asc")
    );
    assert!(r.hash.is_none());
}

#[test]
fn releases_exact_tag_with_v_prefix() {
    let releases = vec![release("v3.1.0", &["x.phar", "x.sig"]), release("3.0.0", &["x.phar"])];
    let r = ToolResolver::new()
        .resolve_github_releases(&id("x", None, Some("3.1.0")), &releases)
        .unwrap();
    assert_eq!(r.version, "3.1.0");
    assert_eq!(r.signature_url.as_deref(), Some("https://dl.example.org/v3.1.0/x.sig"));
}

#[test]
fn releases_without_phar_asset_is_none() {
    let releases = vec![release("v1.0.0", &["source.tar.gz"])];
    assert!(ToolResolver::new()
        .resolve_github_releases(&id("x", None, None), &releases)
        .is_none());
}

#[test]
fn signature_url_first_match() {
    let rel = release("v1", &["a.phar", "a.txt", "a.sig", "a.asc"]);
    assert_eq!(
        ToolResolver::new().find_signature_url(&rel.assets).as_deref(),
        Some("https://dl.example.org/v1/a.sig")
    );
    let none = release("v1", &["a.phar"]);
    assert!(ToolResolver::new().find_signature_url(&none.assets).is_none());
}

#[test]
fn stages_for_builtin_range_and_latest() {
    let r = ToolResolver::new();
    assert_eq!(r.resolution_stages(&id("composer", None, None)), vec![ResolveStage::Builtin]);
    assert_eq!(
        r.resolution_stages(&id("tool", Some("^1"), None)),
        vec![ResolveStage::Registry, ResolveStage::Releases]
    );
    assert_eq!(
        r.resolution_stages(&id("tool", None, Some("1.2.3"))),
        vec![ResolveStage::Registry, ResolveStage::Releases]
    );
    assert_eq!(
        r.resolution_stages(&id("tool", None, Some("latest"))),
        vec![ResolveStage::Registry, ResolveStage::Releases, ResolveStage::DirectUrl]
    );
    assert_eq!(
        r.resolution_stages(&id("tool", None, None)),
        vec![ResolveStage::Registry, ResolveStage::Releases, ResolveStage::DirectUrl]
    );
}

#[test]
fn builtin_composer_artifact() {
    let r = ToolResolver::new();
    let t = r.resolve_builtin_composer(&id("composer", None, Some("2.7.1")));
    assert_eq!(t.name, "composer");
    assert_eq!(t.version, "2.7.1");
    assert_eq!(t.download_url, "https://getcomposer.org/download/latest-stable/composer.phar");
    let l = r.resolve_builtin_composer(&id("composer", None, None));
    assert_eq!(l.version, "latest");
}

#[test]
fn packagist_names_and_url() {
    let r = ToolResolver::new();
    assert_eq!(r.packagist_names("rector"), vec!["rector/rector".to_string(), "rector".to_string()]);
    assert_eq!(r.packagist_names("laravel/pint"), vec!["laravel/pint".to_string()]);
    assert_eq!(r.packagist_url("laravel/pint"), "https://packagist.org/packages/laravel/pint.json");
}

#[test]
fn release_urls_cover_each_variant() {
    let urls = ToolResolver::new().release_list_urls("laravel/pint");
    assert_eq!(
        urls,
        vec![
            "https://api.github.com/repos/laravel/pint/releases".to_string(),
            "https://api.github.com/repos/laravel/php-pint/releases".to_string(),
            "https://api.github.com/repos/laravel/pint-php/releases".to_string(),
            "https://api.github.com/repos/Laravel/Pint/releases".to_string(),
            "https://api.github.com/repos/Laravel/php-Pint/releases".to_string(),
            "https://api.github.com/repos/Laravel/Pint-php/releases".to_string(),
        ]
    );
}

#[test]
fn direct_urls_and_tool() {
    let r = ToolResolver::new();
    assert_eq!(
        r.direct_urls("laravel/pint"),
        vec![
            "https://github.com/laravel/pint/releases/latest/download/pint.phar".to_string(),
            "https://github.com/laravel/pint/releases/latest/download/laravel-pint.phar".to_string(),
            "https://github.com/laravel/pint/releases/latest/download/laravel-pint.phar".to_string(),
        ]
    );
    let t = r.direct_url_tool(&id("laravel/pint", None, None), "https://x/y.phar");
    assert_eq!(t.version, "latest");
    assert_eq!(t.signature_url.as_deref(), Some("https://x/y.phar.asc"));
}

#[test]
fn select_version_over_keys() {
    let keys: Vec<String> = vec!["1.0.0".into(), "1.2.0".into(), "1.2.0-beta".into()];
    let r = ToolResolver::new();
    assert_eq!(r.select_version(&keys, &keys, false, &id("t", Some("~1.2"), None)), Some(1));
    assert_eq!(r.select_version(&keys, &keys, false, &id("t", None, Some("1.0.0"))), Some(0));
    assert_eq!(r.select_version(&keys, &keys, false, &id("t", None, Some("9"))), None);
}

#[test]
fn empty_listings_resolve_to_nothing() {
    let r = ToolResolver::new();
    assert!(r.resolve_packagist_listing(&id("x", None, None), "x/x", &Vec::new()).is_none());
    assert!(r.resolve_github_releases(&id("x", None, None), &Vec::new()).is_none());
    let only_dev = vec![pv("dev-main", "path", None)];
    assert!(r.resolve_packagist_listing(&id("x", None, Some("latest")), "x/x", &only_dev).is_none());
}

#[test]
fn releases_latest_uses_highest_stripped_tag() {
    let releases = vec![
        release("v1.2.0", &["t.phar"]),
        release("v1.10.0", &["t.phar"]),
        release("nightly", &["t.phar"]),
    ];
    let r = ToolResolver::new()
        .resolve_github_releases(&id("t", None, Some("latest")), &releases)
        .unwrap();
    assert_eq!(r.version, "1.10.0");
}
