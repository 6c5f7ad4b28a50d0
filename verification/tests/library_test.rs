use hymnal_core::library::{
    add_library_entry, add_user_library, builtin_library, default_library_dir_in, default_library_in,
    downloads_dir, library_available, pick_download_dir, remove_user_library,
    set_library_enabled, AddLibraryError, Config, Library, DEFAULT_LIBRARY_NAME,
    DEFAULT_REPO_HYMNS_SUBDIR, DEFAULT_REPO_URL,
};

fn lib(name: &str, path: &str, managed: bool) -> Library {
    Library { name: name.into(), path: path.into(), enabled: true, managed_by_git: managed }
}

#[test]
fn default_config_has_baked_in_repo() {
    let cfg = Config::default();
    assert!(!cfg.default_repo_url.is_empty());
    assert_eq!(cfg.default_repo_url, DEFAULT_REPO_URL);
}

#[test]
fn config_download_dir_defaults_to_none() {
    let cfg = Config::default();
    assert_eq!(cfg.download_dir, None);
    assert_eq!(cfg.language, None);
    assert!(cfg.libraries.is_empty());
}

#[test]
fn library_available_true_for_existing_dir() {
    let dir = tempfile::tempdir().unwrap();
    assert!(library_available(&dir.path().to_string_lossy()));
}

#[test]
fn library_available_false_for_missing_dir() {
    assert!(!library_available("/no/such/path/hopefully/12345"));
}

#[test]
fn set_library_enabled_flips_flag() {
    let mut cfg = Config {
        default_repo_url: "x".into(),
        libraries: vec![Library {
            name: "U".into(), path: "/tmp/u".into(), enabled: true, managed_by_git: false,
        }],
        download_dir: None,
        language: None,
    };
    set_library_enabled(&mut cfg, "/tmp/u", false);
    assert!(!cfg.libraries[0].enabled);
    set_library_enabled(&mut cfg, "/tmp/u", true);
    assert!(cfg.libraries[0].enabled);
}

#[test]
fn set_library_enabled_can_disable_default() {
    let mut cfg = Config {
        default_repo_url: "x".into(),
        libraries: vec![Library {
            name: "Default".into(), path: "/data/default".into(), enabled: true, managed_by_git: true,
        }],
        download_dir: None,
        language: None,
    };
    set_library_enabled(&mut cfg, "/data/default", false);
    assert!(!cfg.libraries[0].enabled);
}

#[test]
fn set_library_enabled_ignores_unknown_paths() {
    let mut cfg = Config::default();
    cfg.libraries.push(lib("A", "/a", false));
    set_library_enabled(&mut cfg, "/b", false);
    assert_eq!(cfg.libraries, vec![lib("A", "/a", false)]);
}

#[test]
fn add_user_library_rejects_non_directory() {
    let mut cfg = Config::default();
    assert!(add_user_library(&mut cfg, "/no/such/dir/xyz").is_err());
    assert!(cfg.libraries.is_empty());
}

#[test]
fn add_user_library_adds_an_existing_folder_once() {
    let dir = tempfile::tempdir().unwrap();
    let path = dir.path().to_string_lossy().into_owned();
    let mut cfg = Config::default();
    assert_eq!(add_user_library(&mut cfg, &path), Ok(()));
    assert_eq!(cfg.libraries.len(), 1);
    assert!(cfg.libraries[0].enabled);
    assert!(!cfg.libraries[0].managed_by_git);
    assert_eq!(add_user_library(&mut cfg, &path), Err(AddLibraryError::AlreadyAdded));
    assert_eq!(cfg.libraries.len(), 1);
}

#[test]
fn remove_user_library_removes_user_but_not_default() {
    let mut cfg = Config {
        default_repo_url: "x".into(),
        libraries: vec![
            Library { name: "Default".into(), path: "/data/default".into(), enabled: true, managed_by_git: true },
            Library { name: "Mine".into(), path: "/tmp/mine".into(), enabled: true, managed_by_git: false },
        ],
        download_dir: None,
        language: None,
    };
    remove_user_library(&mut cfg, "/tmp/mine");
    assert_eq!(cfg.libraries.len(), 1);
    remove_user_library(&mut cfg, "/data/default");
    assert_eq!(cfg.libraries.len(), 1);
    assert!(cfg.libraries[0].managed_by_git);
}

#[test]
fn add_then_remove_restores_the_list() {
    let mut cfg = Config::default();
    cfg.libraries.push(lib("Default", "/data/default", true));
    let before = cfg.libraries.clone();
    let existing = vec!["/data/default".to_string()];
    assert_eq!(add_library_entry(&mut cfg, true, "/music/Hymns".into(), &existing), Ok(()));
    assert_eq!(cfg.libraries[1].name, "Hymns");
    assert_eq!(cfg.libraries[1].path, "/music/Hymns");
    remove_user_library(&mut cfg, "/music/Hymns");
    assert_eq!(cfg.libraries, before);
}

#[test]
fn add_library_entry_errors() {
    let mut cfg = Config::default();
    cfg.libraries.push(lib("A", "/a", false));
    let existing = vec!["/a".to_string()];
    assert_eq!(
        add_library_entry(&mut cfg, false, "/b".into(), &existing),
        Err(AddLibraryError::NotAFolder)
    );
    assert_eq!(
        add_library_entry(&mut cfg, true, "/a".into(), &existing),
        Err(AddLibraryError::AlreadyAdded)
    );
    assert_eq!(cfg.libraries.len(), 1);
    assert_eq!(add_library_entry(&mut cfg, true, "/".into(), &existing), Ok(()));
    assert_eq!(cfg.libraries[1].name, "/");
}

#[test]
fn builtin_library_entry() {
    let l = builtin_library("/d/assets/920".into());
    assert_eq!(l.name, DEFAULT_LIBRARY_NAME);
    assert!(l.enabled && l.managed_by_git);
    let d = default_library_in("/data");
    assert!(d.path.ends_with(DEFAULT_REPO_HYMNS_SUBDIR));
    assert_eq!(default_library_dir_in("/data"), "/data/default-library");
    assert_eq!(d.path, "/data/default-library/assets/920");
}

#[test]
fn download_dir_prefers_the_configured_one() {
    let mut cfg = Config::default();
    cfg.download_dir = Some("/home/user/Videos".into());
    assert_eq!(downloads_dir(&cfg), "/home/user/Videos");
    assert_eq!(pick_download_dir(None, Some("/dl".into()), Some("/h".into())), "/dl");
    assert_eq!(pick_download_dir(None, None, Some("/h".into())), "/h");
    assert_eq!(pick_download_dir(None, None, None), ".");
}
