use phpx::cache::{CacheEntry, CacheManager};
use phpx::composer::{
    decode_override_dir, finish_override_install, finish_tool_install, needs_override_install,
    needs_tool_install, override_bootstrap_text, override_dir_matches, package_slug,
    plan_override_install, plan_tool_install, cached_composer_paths, manifest_text,
};
use phpx::config::{expand_tilde, Config, ConfigFile};
use phpx::executor::{exit_status, Executor};
use phpx::resolver::{ComposerPackage, ResolvedTool, ToolIdentifier, ToolInfo};
use phpx::runner::{
    effective_args, next_action, phar_cache_path, record_download, resolved_version,
    verify_cached_tool, EntryFacts, RunAction, RunEvent, RunRequest,
};
use phpx::listing::{override_listing, text_le_exec};
use phpx::security::{SecurityManager, SignatureCheck};
use phpx::{Error, ToolOptions};

const HELLO_MD5: &str = "5d41402abc4b2a76b9719d911017c592";

fn pkg(bins: &[&str]) -> ComposerPackage {
    ComposerPackage {
        package: "rector/rector".into(),
        version: "1.2.0".into(),
        bin_names: bins.iter().map(|s| s.to_string()).collect(),
    }
}

fn request(version: Option<&str>, no_local: bool, clear_cache: bool, no_cache: bool) -> RunRequest {
    RunRequest {
        identifier: ToolIdentifier {
            name: "phpstan".into(),
            version_constraint: None,
            version: version.map(|s| s.to_string()),
        },
        no_local,
        clear_cache,
        no_cache,
    }
}

fn info(hash: Option<&str>) -> ToolInfo {
    ToolInfo {
        name: "phpstan".into(),
        version: "1.10.0".into(),
        download_url: "https://x/phpstan.phar".into(),
        signature_url: None,
        hash: hash.map(|s| s.to_string()),
    }
}

fn file_entry(size: u64, hash: Option<&str>) -> CacheEntry {
    CacheEntry {
        tool_name: "t".into(),
        version: "1".into(),
        file_path: "/c/t-1.phar".into(),
        download_url: "u".into(),
        file_hash: hash.map(|s| s.to_string()),
        created_at: 0,
        last_accessed: 0,
        size,
        bin_name: None,
        is_composer: false,
    }
}

#[test]
fn tool_install_plan_paths() {
    let plan = plan_tool_install(&pkg(&[]), "/cache");
    assert_eq!(plan.install_dir, "/cache/composer/rector-rector-1.2.0");
    assert_eq!(plan.bin_name, "rector");
    assert_eq!(plan.entry_path, "/cache/composer/rector-rector-1.2.0/vendor/bin/rector");
    assert_eq!(plan.manifest, r#"{"require":{"rector/rector":"1.2.0"}}"#);
    assert_eq!(plan.composer_home, "/cache/composer_home");
    assert_eq!(plan.composer_cache, "/cache/composer_cache");
    let declared = plan_tool_install(&pkg(&["fixer", "other"]), "/cache");
    assert_eq!(declared.bin_name, "fixer");
}

#[test]
fn override_plan_paths() {
    let plan = plan_override_install("guzzlehttp/guzzle", "7.10.0", "/cache");
    assert_eq!(plan.install_dir, "/cache/override/guzzlehttp-guzzle-7.10.0");
    assert_eq!(plan.entry_path, "/cache/override/guzzlehttp-guzzle-7.10.0/vendor/autoload.php");
    assert!(needs_override_install(true, false));
    assert!(!needs_override_install(true, true));
    assert!(finish_override_install(true).is_ok());
    assert!(matches!(finish_override_install(false), Err(Error::ComposerInstallFailed(_))));
}

#[test]
fn second_install_is_skipped() {
    let mut cache = CacheManager::new("/cache".into());
    let p = pkg(&[]);
    let first = plan_tool_install(&p, "/cache");
    assert!(needs_tool_install(false, false));
    assert!(finish_tool_install(&mut cache, &p, &first, true, 2).is_ok());
    let second = plan_tool_install(&p, "/cache");
    assert_eq!(second.install_dir, first.install_dir);
    assert!(!needs_tool_install(true, true));
    assert!(needs_tool_install(true, false));
    let e = &cache.list_entries()[0];
    assert!(e.is_composer);
    assert_eq!(e.file_path, "/cache/composer/rector-rector-1.2.0");
    assert_eq!(e.bin_name.as_deref(), Some("rector"));
    assert_eq!(e.created_at, 2);
}

#[test]
fn install_without_binary_fails_and_records_nothing() {
    let mut cache = CacheManager::new("/cache".into());
    let p = pkg(&[]);
    let plan = plan_tool_install(&p, "/cache");
    let r = finish_tool_install(&mut cache, &p, &plan, false, 2);
    assert!(matches!(r, Err(Error::ComposerInstallFailed(_))));
    assert!(cache.list_entries().is_empty());
}

#[test]
fn cached_package_manager_paths() {
    let mut cache = CacheManager::new("/cache".into());
    cache.add_entry("composer".into(), "stable".into(), "/s.phar".into(), "u".into(), None, 1, 1);
    cache.add_entry("composer".into(), "latest".into(), "/l.phar".into(), "u".into(), None, 1, 1);
    assert_eq!(cached_composer_paths(&mut cache, 5), vec!["/l.phar".to_string(), "/s.phar".to_string()]);
}

#[test]
fn manifest_and_slug() {
    assert_eq!(manifest_text("a/b", "^1"), r#"{"require":{"a/b":"^1"}}"#);
    assert_eq!(package_slug("a/b/c"), "a-b-c");
}

#[test]
fn override_dir_names() {
    assert_eq!(
        decode_override_dir("guzzlehttp-guzzle-7.10.0"),
        ("guzzlehttp/guzzle".to_string(), "7.10.0".to_string())
    );
    assert_eq!(
        decode_override_dir("symfony-http-client-6.4.0"),
        ("symfony/http-client".to_string(), "6.4.0".to_string())
    );
    assert_eq!(decode_override_dir("vendor-pkg-dev"), ("vendor/pkg-dev".to_string(), String::new()));
    assert_eq!(decode_override_dir("single"), ("single".to_string(), String::new()));
    assert!(override_dir_matches("guzzlehttp-guzzle-7.10.0", "guzzlehttp/guzzle", None));
    assert!(!override_dir_matches("foo-bar-baz-1.0", "foo/bar", None));
    assert!(!override_dir_matches("foo-bar-baz-1.0", "foo/bar", Some("baz-1.0")));
    assert!(override_dir_matches("foo-bar-baz-1.0", "foo/bar-baz", Some("1.0")));
    assert!(override_dir_matches("guzzlehttp-guzzle-7.10.0", "guzzlehttp/guzzle", Some("7.10.0")));
    assert!(!override_dir_matches("guzzlehttp-guzzle-7.10.0", "guzzlehttp/guzzle", Some("7.9.0")));
    assert!(!override_dir_matches("guzzlehttp-psr7-2.0.0", "guzzlehttp/guzzle", None));
}

#[test]
fn bootstrap_escapes_path() {
    let text = override_bootstrap_text("C:\\it's\\vendor\\autoload.php");
    assert_eq!(
        text,
        "<?php\n// phpx add --bootstrap: load the override vendor first, then the project vendor.\nrequire 'C:\\\\it\\'s\\\\vendor\\\\autoload.php';\nrequire __DIR__ . '/vendor/autoload.php';\n"
    );
}

#[test]
fn child_exit_status_passes_through() {
    let ex = Executor::new();
    let outcome = ex.child_outcome(false, Some(3));
    assert!(matches!(outcome, Err(Error::ExecutionFailed(3))));
    assert_eq!(exit_status(&outcome), (3, false));
    assert_eq!(exit_status(&ex.child_outcome(false, None)), (1, false));
    assert_eq!(exit_status(&ex.child_outcome(true, Some(0))), (0, false));
    assert_eq!(exit_status(&Err(Error::ToolNotFound("x".into()))), (1, true));
}

#[test]
fn interpreter_version_checks() {
    assert!(Executor::php_version_matches_constraint("8.2.1", "^8.1"));
    assert!(!Executor::php_version_matches_constraint("7.4.0", ">=8.0"));
    assert!(Executor::php_version_matches_constraint("8.2.0", "  "));
    assert!(Executor::php_version_matches_constraint("8.2.0", ">=7.4, <9"));
    assert!(Executor::php_version_matches_constraint("9.0.0", "8.2.0"));
    assert!(Executor::php_version_matches_constraint("8.2.0", "8.2.0"));
    assert!(!Executor::php_version_matches_constraint("8.1.9", "8.2.0"));
    assert!(!Executor::php_version_matches_constraint("not-a-version", "^8"));
    assert!(!Executor::php_version_matches_constraint("8.2.0", "^8 || ^7"));
}

#[test]
fn interpreter_version_core() {
    let ex = Executor::new();
    assert_eq!(ex.php_version_core("8.2.1-1ubuntu\n").as_deref(), Some("8.2.1"));
    assert_eq!(ex.php_version_core("  \n"), None);
    assert_eq!(ex.php_version_core("dev"), None);
    assert_eq!(
        ex.interpreter_candidates(),
        vec!["php".to_string(), "/usr/bin/php".to_string(), "/usr/local/bin/php".to_string()]
    );
}

#[test]
fn project_constraint_choice() {
    let ex = Executor::new();
    assert_eq!(ex.pick_project_constraint(&Some("^8.1".into()), &Some("8.0".into())).as_deref(), Some("^8.1"));
    assert_eq!(ex.pick_project_constraint(&Some(String::new()), &Some("8.0".into())).as_deref(), Some("8.0"));
    assert_eq!(ex.pick_project_constraint(&None, &Some(String::new())), None);
}

#[test]
fn hash_verification() {
    let sec = SecurityManager::new(false);
    let content = b"hello".to_vec();
    assert_eq!(sec.calculate_hash(&content), HELLO_MD5);
    assert!(sec.verify_hash(&content, HELLO_MD5).is_ok());
    assert!(matches!(sec.verify_hash(&content, "00"), Err(Error::Security(_))));
    assert_eq!(sec.verify_signature("/x", Some("https://x.asc")), SignatureCheck::NotChecked);
    assert!(!sec.skip_verification());
    assert!(SecurityManager::new(true).skip_verification());
}

#[test]
fn run_precedence_local_first() {
    let req = request(Some("1.0.0"), false, true, false);
    assert!(matches!(next_action(&req, RunEvent::Start), RunAction::ProbeLocal(n) if n == "phpstan"));
    assert!(matches!(next_action(&req, RunEvent::LocalProbed(Some("vendor/bin/phpstan".into()))), RunAction::RunFile(p) if p == "vendor/bin/phpstan"));
    assert!(matches!(next_action(&req, RunEvent::LocalProbed(None)), RunAction::ClearCache(n) if n == "phpstan"));
    assert!(matches!(next_action(&req, RunEvent::CacheCleared), RunAction::CheckCache(v) if v == "1.0.0"));
}

#[test]
fn run_precedence_without_version_or_cache() {
    let req = request(None, true, false, false);
    assert!(matches!(next_action(&req, RunEvent::Start), RunAction::ResolveVersion));
    assert!(matches!(next_action(&req, RunEvent::VersionResolved(Some("2.0.0".into()))), RunAction::CheckCache(v) if v == "2.0.0"));
    assert!(matches!(next_action(&req, RunEvent::VersionResolved(None)), RunAction::Resolve));
    let no_cache = request(Some("1"), true, false, true);
    assert!(matches!(next_action(&no_cache, RunEvent::Start), RunAction::Resolve));
}

#[test]
fn run_cache_hits_and_resolution() {
    let req = request(None, true, false, false);
    let mut dir = file_entry(0, None);
    dir.is_composer = true;
    dir.file_path = "/c/composer/rector-rector-1".into();
    dir.bin_name = Some("rector".into());
    assert!(matches!(next_action(&req, RunEvent::CacheChecked(Some(dir))), RunAction::RunScript(p) if p == "/c/composer/rector-rector-1/vendor/bin/rector"));
    assert!(matches!(next_action(&req, RunEvent::CacheChecked(Some(file_entry(1, None)))), RunAction::RunFile(p) if p == "/c/t-1.phar"));
    assert!(matches!(next_action(&req, RunEvent::CacheChecked(None)), RunAction::Resolve));
    assert!(matches!(next_action(&req, RunEvent::Resolved(Some(ResolvedTool::Phar(info(None))))), RunAction::Fetch(t) if t.version == "1.10.0"));
    let install = next_action(&req, RunEvent::Resolved(Some(ResolvedTool::Composer(pkg(&[])))));
    assert!(matches!(install, RunAction::Install(p) if p.package == "rector/rector"));
    assert!(matches!(next_action(&req, RunEvent::Resolved(None)), RunAction::Fail(Error::ToolNotFound(n)) if n == "phpstan"));
}

#[test]
fn cached_entry_verification() {
    let sec = SecurityManager::new(false);
    let hello = Some(b"hello".to_vec());
    let facts = |exists: bool, bin: bool, content: Option<Vec<u8>>| EntryFacts { path_exists: exists, bin_exists: bin, content };
    assert!(verify_cached_tool(&sec, &file_entry(5, Some(HELLO_MD5)), false, &facts(true, false, hello.clone())).is_ok());
    assert!(matches!(verify_cached_tool(&sec, &file_entry(5, Some("bad")), false, &facts(true, false, hello.clone())), Err(Error::Security(_))));
    assert!(verify_cached_tool(&sec, &file_entry(5, Some("")), false, &facts(true, false, hello.clone())).is_ok());
    assert!(matches!(verify_cached_tool(&sec, &file_entry(4, None), false, &facts(true, false, hello.clone())), Err(Error::Cache(_))));
    assert!(matches!(verify_cached_tool(&sec, &file_entry(5, None), false, &facts(false, false, None)), Err(Error::Cache(_))));
    assert!(matches!(verify_cached_tool(&sec, &file_entry(5, None), false, &facts(true, false, None)), Err(Error::Io(_))));
    assert!(verify_cached_tool(&sec, &file_entry(4, Some("bad")), true, &facts(true, false, None)).is_ok());
    assert!(matches!(verify_cached_tool(&sec, &file_entry(4, None), true, &facts(false, false, None)), Err(Error::Cache(_))));
    assert!(verify_cached_tool(&SecurityManager::new(true), &file_entry(4, None), false, &facts(true, false, None)).is_ok());
    let mut dir = file_entry(0, None);
    dir.is_composer = true;
    assert!(verify_cached_tool(&sec, &dir, false, &facts(true, true, None)).is_ok());
    assert!(matches!(verify_cached_tool(&sec, &dir, false, &facts(true, false, None)), Err(Error::Cache(_))));
}

#[test]
fn download_recording() {
    let sec = SecurityManager::new(false);
    let mut cache = CacheManager::new("/c".into());
    let content = b"hello".to_vec();
    let bad = record_download(&mut cache, &sec, &info(Some("ffff")), "/c/p.phar", &content, false, 3);
    assert!(matches!(bad, Err(Error::Security(_))));
    assert!(cache.list_entries().is_empty());
    assert!(record_download(&mut cache, &sec, &info(Some(HELLO_MD5)), "/c/p.phar", &content, false, 3).is_ok());
    let e = &cache.list_entries()[0];
    assert_eq!(e.file_hash.as_deref(), Some(HELLO_MD5));
    assert_eq!(e.size, 5);
    assert!(record_download(&mut cache, &sec, &info(Some("ffff")), "/c/p.phar", &content, true, 4).is_ok());
    assert_eq!(cache.list_entries().len(), 1);
    assert_eq!(cache.list_entries()[0].file_hash.as_deref(), Some(""));
}

#[test]
fn run_helpers() {
    let args = vec!["analyse".to_string()];
    assert_eq!(effective_args(&args, true), vec!["analyse".to_string(), "--no-interaction".to_string()]);
    assert_eq!(effective_args(&args, false), args);
    assert_eq!(phar_cache_path("/c", &info(None)), "/c/phpstan-1.10.0.phar");
    assert_eq!(resolved_version(&ResolvedTool::Composer(pkg(&[]))), "1.2.0");
    let o = ToolOptions::default();
    assert!(!o.clear_cache && !o.no_cache && !o.skip_verify && o.php.is_none() && !o.no_local && !o.no_interaction);
}

#[test]
fn configuration_defaults_and_file() {
    let d = Config::with_home(Some("/home/u"));
    assert_eq!(d.cache_dir, "/home/u/.cache/phpx");
    assert_eq!(d.cache_ttl, 604800);
    assert_eq!(d.max_cache_size, 1073741824);
    assert_eq!(Config::with_home(None).cache_dir, ".cache/phpx");
    assert_eq!(Config::default_config_path(Some("/home/u")).as_deref(), Some("/home/u/.config/phpx/config.toml"));
    let file = ConfigFile {
        cache_dir: Some(" ~/cache ".into()),
        cache_ttl: Some(60),
        max_cache_size: None,
        skip_verify: Some(true),
        default_php_path: Some("~".into()),
        download_mirrors: None,
    };
    let c = Config::from_file(&file, Some("/home/u"));
    assert_eq!(c.cache_dir, "/home/u/cache");
    assert_eq!(c.cache_ttl, 60);
    assert_eq!(c.max_cache_size, 1073741824);
    assert!(c.skip_verify);
    assert_eq!(c.default_php_path.as_deref(), Some("/home/u"));
    assert_eq!(c.download_mirrors.len(), 2);
    let back = c.to_file();
    assert_eq!(back.cache_ttl, Some(60));
    assert_eq!(expand_tilde("~/x", None), "~/x");
    assert_eq!(expand_tilde("/abs", Some("/h")), "/abs");
}

#[test]
fn override_listing_is_sorted() {
    let dirs: Vec<(String, String)> = vec![
        ("symfony-console-7.0.0".into(), "/o/3".into()),
        ("guzzlehttp-guzzle-7.9.0".into(), "/o/2".into()),
        ("guzzlehttp-guzzle-7.10.0".into(), "/o/1".into()),
        ("acme-tool-dev".into(), "/o/4".into()),
    ];
    let listing = override_listing(&dirs);
    let expect: Vec<(String, String, String)> = vec![
        ("acme/tool-dev".into(), "".into(), "/o/4".into()),
        ("guzzlehttp/guzzle".into(), "7.10.0".into(), "/o/1".into()),
        ("guzzlehttp/guzzle".into(), "7.9.0".into(), "/o/2".into()),
        ("symfony/console".into(), "7.0.0".into(), "/o/3".into()),
    ];
    assert_eq!(listing, expect);
    assert!(text_le_exec("abc", "abd"));
    assert!(text_le_exec("ab", "abc"));
    assert!(!text_le_exec("b", "abc"));
    assert!(text_le_exec("", ""));
}

#[test]
fn interpreter_output_is_trimmed() {
    let ex = Executor::new();
    assert_eq!(ex.php_version_core("  8.3.0\n").as_deref(), Some("8.3.0"));
    assert!(Executor::php_version_matches_constraint("8.3.0", "  ^8.2  "));
}
