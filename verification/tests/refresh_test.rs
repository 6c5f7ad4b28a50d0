use hymnal_core::library::{Config, Library, DEFAULT_LIBRARY_NAME};
use hymnal_core::model::HymnEntry;
use hymnal_core::refresh::{index_or_cached, libraries_to_index, register_default_library, starting_cache};

fn entry(n: &str) -> HymnEntry {
    HymnEntry {
        number: Some(n.into()),
        title: n.into(),
        body: String::new(),
        slides: vec![],
        path: format!("/x/{n}.pptx"),
        library: "L".into(),
        mtime: 0,
    }
}

#[test]
fn default_library_is_registered_once() {
    let mut cfg = Config::default();
    register_default_library(&mut cfg, "/data/default-library");
    assert_eq!(cfg.libraries.len(), 1);
    assert_eq!(cfg.libraries[0].name, DEFAULT_LIBRARY_NAME);
    assert_eq!(cfg.libraries[0].path, "/data/default-library/assets/920");
    assert!(cfg.libraries[0].managed_by_git && cfg.libraries[0].enabled);
    let once = cfg.clone();
    register_default_library(&mut cfg, "/elsewhere");
    assert_eq!(cfg, once);
}

#[test]
fn existing_managed_library_is_kept() {
    let mut cfg = Config::default();
    cfg.libraries.push(Library { name: "Mine".into(), path: "/m".into(), enabled: false, managed_by_git: true });
    let before = cfg.clone();
    register_default_library(&mut cfg, "/data/default-library");
    assert_eq!(cfg, before);
}

#[test]
fn only_enabled_libraries_are_indexed() {
    let mut cfg = Config::default();
    cfg.libraries.push(Library { name: "A".into(), path: "/a".into(), enabled: true, managed_by_git: true });
    cfg.libraries.push(Library { name: "B".into(), path: "/b".into(), enabled: false, managed_by_git: false });
    cfg.libraries.push(Library { name: "C".into(), path: "/c".into(), enabled: true, managed_by_git: false });
    let names: Vec<String> = libraries_to_index(&cfg).into_iter().map(|l| l.name).collect();
    assert_eq!(names, vec!["A".to_string(), "C".to_string()]);
}

#[test]
fn empty_unforced_load_falls_back_to_the_cache() {
    let cached = vec![entry("1"), entry("2")];
    assert_eq!(index_or_cached(vec![], cached.clone(), false), cached);
    assert_eq!(index_or_cached(vec![], cached.clone(), true), vec![]);
    assert_eq!(index_or_cached(vec![entry("3")], cached, false), vec![entry("3")]);
}

#[test]
fn forced_load_ignores_the_cache() {
    assert!(starting_cache(Some(vec![entry("1")]), true).is_empty());
    assert_eq!(starting_cache(Some(vec![entry("1")]), false), vec![entry("1")]);
    assert!(starting_cache(None, false).is_empty());
}
