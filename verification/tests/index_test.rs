use hymnal_core::index::{
    cached_entries, entry_from_parsed, find_cached, is_pptx_file_name, pptx_paths, CACHE_VERSION,
};
use hymnal_core::model::HymnEntry;
use hymnal_core::pptx::ParsedPptx;

fn entry(path: &str, mtime: i64, title: &str) -> HymnEntry {
    HymnEntry {
        number: Some("7".into()),
        title: title.into(),
        body: "B".into(),
        slides: vec!["B".into()],
        path: path.into(),
        library: "L".into(),
        mtime,
    }
}

#[test]
fn pptx_names_skip_lock_files_and_other_files() {
    assert!(is_pptx_file_name("150.pptx"));
    assert!(is_pptx_file_name("Imn.PPTX"));
    assert!(!is_pptx_file_name("~$150.pptx"));
    assert!(!is_pptx_file_name("notes.txt"));
    assert!(!is_pptx_file_name("150.ppt"));
}

#[test]
fn crawl_keeps_pptx_paths_in_order() {
    let found = vec![
        "/lib/b/2.pptx".to_string(),
        "/lib/~$2.pptx".to_string(),
        "/lib/readme.md".to_string(),
        "/lib/a/1.PPTX".to_string(),
    ];
    assert_eq!(pptx_paths(&found), vec!["/lib/b/2.pptx".to_string(), "/lib/a/1.PPTX".to_string()]);
}

#[test]
fn cache_with_other_version_is_a_miss() {
    let entries = vec![entry("/x/7.pptx", 123, "T")];
    assert_eq!(cached_entries(CACHE_VERSION, entries.clone()), Some(entries.clone()));
    assert_eq!(cached_entries(CACHE_VERSION + 1, entries.clone()), None);
    assert_eq!(cached_entries(0, entries), None);
}

#[test]
fn unchanged_files_are_found_in_the_cache() {
    let cached = vec![entry("/x/1.pptx", 1, "a"), entry("/x/2.pptx", 5, "b"), entry("/x/2.pptx", 5, "c")];
    assert_eq!(find_cached(&cached, "/x/2.pptx", 5), Some(1));
    assert_eq!(find_cached(&cached, "/x/2.pptx", 6), None);
    assert_eq!(find_cached(&cached, "/x/3.pptx", 1), None);
    for (i, e) in cached.iter().enumerate() {
        let hit = find_cached(&cached, &e.path, e.mtime).unwrap();
        assert!(hit <= i);
    }
}

#[test]
fn parsed_hymn_becomes_an_entry() {
    let parsed = ParsedPptx {
        number: Some(150),
        title: "Cerul".into(),
        body: "Cerul\nmarea".into(),
        slides: vec!["Cerul".into(), "marea".into()],
    };
    let e = entry_from_parsed(parsed, "/lib/150.pptx".into(), "Imnuri", 42);
    assert_eq!(e.number.as_deref(), Some("150"));
    assert_eq!(e.title, "Cerul");
    assert_eq!(e.slides.len(), 2);
    assert_eq!(e.path, "/lib/150.pptx");
    assert_eq!(e.library, "Imnuri");
    assert_eq!(e.mtime, 42);
    let none = ParsedPptx { number: None, title: String::new(), body: String::new(), slides: vec![] };
    assert_eq!(entry_from_parsed(none, "/a.pptx".into(), "L", 0).number, None);
}

#[test]
fn crawl_skips_lock_and_non_pptx_files() {
    let dir = tempfile::tempdir().unwrap();
    let sub = tempfile::Builder::new().prefix("hymns").tempdir_in(dir.path()).unwrap();
    let mut keep = Vec::new();
    for (parent, name) in [
        (dir.path(), "001.pptx"),
        (sub.path(), "150.pptx"),
        (dir.path(), "~$001.pptx"),
        (sub.path(), "notes.txt"),
    ] {
        keep.push(tempfile::Builder::new().prefix(name).rand_bytes(0).tempfile_in(parent).unwrap());
    }
    let files: Vec<String> = walkdir::WalkDir::new(dir.path())
        .into_iter()
        .filter_map(|e| e.ok())
        .filter(|e| e.file_type().is_file())
        .map(|e| e.into_path().to_string_lossy().into_owned())
        .collect();
    let paths = pptx_paths(&files);
    assert!(paths.iter().all(|p| {
        let n = std::path::Path::new(p).file_name().unwrap().to_str().unwrap();
        n.ends_with(".pptx") && !n.starts_with("~$")
    }));
    assert!(paths.len() >= 2);
    assert_eq!(paths.len(), 2);
}
