use phpx::cache::{build_key, CacheEntry, CacheManager};
use phpx::resolver::ToolIdentifier;

fn entry(name: &str, version: &str, last: u64) -> CacheEntry {
    CacheEntry {
        tool_name: name.to_string(),
        version: version.to_string(),
        file_path: format!("/c/{}-{}.phar", name, version),
        download_url: "u".to_string(),
        file_hash: None,
        created_at: last,
        last_accessed: last,
        size: 1,
        bin_name: None,
        is_composer: false,
    }
}

fn add(m: &mut CacheManager, name: &str, version: &str, path: &str, now: u64) {
    m.add_entry(name.into(), version.into(), path.into(), "u".into(), None, 10, now);
}

#[test]
fn key_format() {
    assert_eq!(build_key("phpstan", "1.10.0"), "phpstan:1.10.0");
}

#[test]
fn same_key_keeps_later_entry() {
    let mut m = CacheManager::new("/c".to_string());
    add(&mut m, "tool", "1.0.0", "/first", 5);
    add(&mut m, "tool", "1.0.0", "/second", 6);
    let all = m.list_entries();
    assert_eq!(all.len(), 1);
    assert_eq!(all[0].file_path, "/second");
    assert_eq!(all[0].created_at, 6);
}

#[test]
fn distinct_keys_coexist() {
    let mut m = CacheManager::new("/c".to_string());
    add(&mut m, "tool", "1.0.0", "/a", 1);
    add(&mut m, "tool", "2.0.0", "/b", 1);
    add(&mut m, "other", "1.0.0", "/c", 1);
    assert_eq!(m.list_entries().len(), 3);
}

#[test]
fn get_entry_touches_hit() {
    let mut m = CacheManager::new("/c".to_string());
    add(&mut m, "tool", "1.0.0", "/a", 1);
    let hit = m.get_entry("tool", "1.0.0", 99).unwrap();
    assert_eq!(hit.last_accessed, 99);
    assert_eq!(hit.created_at, 1);
    assert_eq!(m.list_entries()[0].last_accessed, 99);
    assert!(m.get_entry("tool", "2.0.0", 100).is_none());
}

#[test]
fn latest_entry_never_serves_specific_request() {
    let mut m = CacheManager::new("/c".to_string());
    add(&mut m, "tool", "latest", "/latest.phar", 1);
    let specific = ToolIdentifier {
        name: "tool".into(),
        version_constraint: None,
        version: Some("1.2.3".into()),
    };
    assert!(m.lookup_for_request(&specific, "latest", 2).is_none());
    let ranged = ToolIdentifier {
        name: "tool".into(),
        version_constraint: Some("^1.0".into()),
        version: None,
    };
    assert!(m.lookup_for_request(&ranged, "latest", 3).is_none());
    let latest = ToolIdentifier {
        name: "tool".into(),
        version_constraint: None,
        version: Some("latest".into()),
    };
    assert_eq!(m.lookup_for_request(&latest, "latest", 4).unwrap().file_path, "/latest.phar");
}

#[test]
fn specific_entry_serves_specific_request() {
    let mut m = CacheManager::new("/c".to_string());
    add(&mut m, "tool", "1.2.3", "/a.phar", 1);
    let specific = ToolIdentifier {
        name: "tool".into(),
        version_constraint: None,
        version: Some("1.2.3".into()),
    };
    assert_eq!(m.lookup_for_request(&specific, "1.2.3", 2).unwrap().version, "1.2.3");
}

#[test]
fn ttl_sweep_removes_exactly_expired() {
    let mut m = CacheManager::from_entries(
        "/c".to_string(),
        vec![entry("a", "1", 100), entry("b", "1", 50), entry("c", "1", 89), entry("d", "1", 200)],
    );
    let removed = m.cleanup_old_entries(10, 100);
    let gone: Vec<&str> = removed.iter().map(|e| e.tool_name.as_str()).collect();
    assert_eq!(gone, vec!["b", "c"]);
    let kept: Vec<&str> = m.list_entries().iter().map(|e| e.tool_name.as_str()).collect();
    assert_eq!(kept, vec!["a", "d"]);
}

#[test]
fn ttl_boundary_is_kept() {
    let mut m = CacheManager::from_entries("/c".to_string(), vec![entry("a", "1", 90)]);
    assert!(m.cleanup_old_entries(10, 100).is_empty());
    assert_eq!(m.list_entries().len(), 1);
}

fn keys(entries: &[CacheEntry]) -> Vec<String> {
    entries.iter().map(|e| build_key(&e.tool_name, &e.version)).collect()
}

#[test]
fn remove_one_version_or_all() {
    let mut m = CacheManager::from_entries(
        "/c".to_string(),
        vec![entry("tool", "1", 1), entry("tool", "2", 1), entry("toolbox", "1", 1)],
    );
    let one = m.removal_candidates("tool", Some("1"));
    assert_eq!(keys(&one), vec!["tool:1".to_string()]);
    let removed = m.remove_entry("tool", Some("1"), &keys(&one)).unwrap();
    assert_eq!(removed.len(), 1);
    assert_eq!(removed[0].version, "1");
    let all = m.removal_candidates("tool", None);
    assert_eq!(keys(&all), vec!["tool:2".to_string()]);
    let removed = m.remove_entry("tool", None, &keys(&all)).unwrap();
    assert_eq!(removed[0].version, "2");
    let rest: Vec<&str> = m.list_entries().iter().map(|e| e.tool_name.as_str()).collect();
    assert_eq!(rest, vec!["toolbox"]);
}

#[test]
fn failed_deletion_keeps_entry() {
    let mut m = CacheManager::from_entries(
        "/c".to_string(),
        vec![entry("tool", "1", 1), entry("tool", "2", 1)],
    );
    let r = m.remove_entry("tool", None, &vec!["tool:2".to_string()]);
    assert!(matches!(r, Err(phpx::Error::Io(_))));
    assert_eq!(keys(m.list_entries()), vec!["tool:1".to_string()]);
}

#[test]
fn loading_keeps_later_duplicate() {
    let mut second = entry("a", "1", 7);
    second.file_path = "/later".into();
    let m = CacheManager::from_entries("/c".to_string(), vec![entry("a", "1", 1), second]);
    assert_eq!(m.list_entries().len(), 1);
    assert_eq!(m.list_entries()[0].file_path, "/later");
    assert_eq!(m.cache_dir(), "/c");
}
