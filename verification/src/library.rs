//! Library folders and the persisted application configuration.

use vstd::prelude::*;
use crate::text::str_eq;

verus! {

/// The default hymns repository, baked in but overridable in config.
pub const DEFAULT_REPO_URL: &'static str = "https://github.com/AbelHristodor/sda_manager.git";

/// Subdirectory within the default repo that holds the hymn .pptx folders.
/// The repo also contains application code, so the indexer points here rather
/// than at the clone root (which would double-index the test fixtures).
pub const DEFAULT_REPO_HYMNS_SUBDIR: &'static str = "assets/920";

/// Display name of the built-in (git-managed) library.
pub const DEFAULT_LIBRARY_NAME: &'static str = "Imnuri Creștine";

/// Name of the directory, under the app's data directory, where the default
/// git library is cloned.
pub const DEFAULT_LIBRARY_DIR_NAME: &'static str = "default-library";

/// One library = a folder of .pptx files.
#[derive(Debug, Clone, PartialEq)]
pub struct Library {
    pub name: String,
    pub path: String,
    pub enabled: bool,
    /// True for the default library synced via git.
    pub managed_by_git: bool,
}

/// A copy of a library entry.
pub fn copy_library(l: &Library) -> (r: Library)
    ensures
        r == *l,
{
    Library { name: l.name.clone(), path: l.path.clone(), enabled: l.enabled, managed_by_git: l.managed_by_git }
}

/// Persisted application configuration.
#[derive(Debug, Clone, PartialEq)]
pub struct Config {
    pub default_repo_url: String,
    pub libraries: Vec<Library>,
    /// User's chosen download folder. `None` => OS Downloads directory.
    pub download_dir: Option<String>,
    /// Selected UI language code ("en"/"it"/"ro"). `None` => not yet chosen
    /// (detect from OS locale on first run).
    pub language: Option<String>,
}

impl Default for Config {
    fn default() -> (r: Self)
        ensures
            r.default_repo_url@ == DEFAULT_REPO_URL@,
            r.libraries@.len() == 0,
            r.download_dir is None,
            r.language is None,
    {
        Config {
            default_repo_url: String::from_str(DEFAULT_REPO_URL),
            libraries: Vec::new(),
            download_dir: None,
            language: None,
        }
    }
}

// ---------------------------------------------------------------------------
// Outside calls: file system and path text
// ---------------------------------------------------------------------------

/// What std's `Path::join` gives for `base` joined with `part`, as text.
pub uninterp spec fn path_joined(base: Seq<char>, part: Seq<char>) -> Seq<char>;

/// What std's `Path::file_name` gives for a path (its final component), as
/// text, if any.
pub uninterp spec fn path_file_name(path: Seq<char>) -> Option<Seq<char>>;

/// The position of the last '.' in a file name, if any.
pub open spec fn last_dot(name: Seq<char>) -> Option<int>
    decreases name.len(),
{
    if name.len() == 0 {
        None
    } else if name.last() == '.' {
        Some(name.len() - 1)
    } else {
        last_dot(name.drop_last())
    }
}

/// What std's `Path::file_stem` gives for a path: the file name without its
/// extension, that is, the whole name when it has no '.' other than a
/// leading one, else the part before the last '.'.
pub open spec fn path_file_stem(path: Seq<char>) -> Option<Seq<char>> {
    match path_file_name(path) {
        Some(name) => match last_dot(name) {
            Some(i) => if i > 0 {
                Some(name.take(i))
            } else {
                Some(name)
            },
            None => Some(name),
        },
        None => None,
    }
}

/// What std's `Path::extension` gives for a path: the part of the file name
/// after its last '.', unless the name has no '.' other than a leading one.
pub open spec fn path_extension(path: Seq<char>) -> Option<Seq<char>> {
    match path_file_name(path) {
        Some(name) => match last_dot(name) {
            Some(i) => if i > 0 {
                Some(name.skip(i + 1))
            } else {
                None
            },
            None => None,
        },
        None => None,
    }
}

/// std `Path::join`, as text. Claimed: the result depends only on the two
/// texts.
#[verifier::external_body]
pub(crate) fn join_path(base: &str, part: &str) -> (r: String)
    ensures
        r@ == path_joined(base@, part@),
{
    std::path::Path::new(base).join(part).to_string_lossy().into_owned()
}

/// std `Path::file_name`, as text. Claimed: the result depends only on the
/// path text.
#[verifier::external_body]
pub(crate) fn file_name_of(path: &str) -> (r: Option<String>)
    ensures
        match r {
            Some(s) => path_file_name(path@) == Some(s@),
            None => path_file_name(path@) is None,
        },
{
    std::path::Path::new(path).file_name().map(|n| n.to_string_lossy().into_owned())
}

/// std `Path::is_dir`: whether a directory exists at `path` now. It depends
/// on the file system, so nothing is claimed of the answer.
#[verifier::external_body]
pub(crate) fn path_is_dir(path: &str) -> bool {
    std::path::Path::new(path).is_dir()
}

/// std `Path::canonicalize` (absolute, symlinks resolved), as text; `None`
/// when it fails. It depends on the file system, so nothing is claimed.
#[verifier::external_body]
fn canonicalize_path(path: &str) -> Option<String> {
    std::path::Path::new(path).canonicalize().ok().map(|p| p.to_string_lossy().into_owned())
}

/// directories' `ProjectDirs::from("org", "hymnal", "HymnFinder")` data
/// directory, as text. It depends on the environment, so nothing is claimed.
#[verifier::external_body]
pub(crate) fn project_data_dir() -> Option<String> {
    directories::ProjectDirs::from("org", "hymnal", "HymnFinder").map(|d| d.data_dir().to_string_lossy().into_owned())
}

/// directories' `ProjectDirs::from("org", "hymnal", "HymnFinder")` config
/// directory, as text. It depends on the environment, so nothing is claimed.
#[verifier::external_body]
fn project_config_dir() -> Option<String> {
    directories::ProjectDirs::from("org", "hymnal", "HymnFinder").map(|d| d.config_dir().to_string_lossy().into_owned())
}

/// directories' `ProjectDirs::from("org", "hymnal", "HymnFinder")` cache
/// directory, as text. It depends on the environment, so nothing is claimed.
#[verifier::external_body]
fn project_cache_dir() -> Option<String> {
    directories::ProjectDirs::from("org", "hymnal", "HymnFinder").map(|d| d.cache_dir().to_string_lossy().into_owned())
}

/// dirs' `download_dir`: the user's Downloads folder, as text. It depends on
/// the environment, so nothing is claimed.
#[verifier::external_body]
fn os_download_dir() -> Option<String> {
    dirs::download_dir().map(|d| d.to_string_lossy().into_owned())
}

/// dirs' `home_dir`: the user's home folder, as text. It depends on the
/// environment, so nothing is claimed.
#[verifier::external_body]
fn os_home_dir() -> Option<String> {
    dirs::home_dir().map(|d| d.to_string_lossy().into_owned())
}

// ---------------------------------------------------------------------------
// Standard places
// ---------------------------------------------------------------------------

/// The config file: `config.toml` in the app's config directory.
pub fn config_path() -> (r: Option<String>)
    ensures
        r matches Some(p) ==> exists|d: Seq<char>| p@ == #[trigger] path_joined(d, "config.toml"@),
{
    match project_config_dir() {
        Some(d) => Some(join_path(d.as_str(), "config.toml")),
        None => None,
    }
}

/// Directory where the default git library is cloned.
pub fn default_library_dir() -> (r: Option<String>)
    ensures
        r matches Some(p) ==> exists|d: Seq<char>| p@ == #[trigger] path_joined(d, DEFAULT_LIBRARY_DIR_NAME@),
{
    match project_data_dir() {
        Some(d) => Some(default_library_dir_in(d.as_str())),
        None => None,
    }
}

/// Path for the serialized index cache: `index.bin` in the app's cache
/// directory.
pub fn index_cache_path() -> (r: Option<String>)
    ensures
        r matches Some(p) ==> exists|d: Seq<char>| p@ == #[trigger] path_joined(d, "index.bin"@),
{
    match project_cache_dir() {
        Some(d) => Some(join_path(d.as_str(), "index.bin")),
        None => None,
    }
}

/// Directory holding user theme JSON files (one per theme): `themes` in the
/// app's config directory.
pub fn themes_dir() -> (r: Option<String>)
    ensures
        r matches Some(p) ==> exists|d: Seq<char>| p@ == #[trigger] path_joined(d, "themes"@),
{
    match project_config_dir() {
        Some(d) => Some(join_path(d.as_str(), "themes")),
        None => None,
    }
}

/// The effective download directory, from the configured one, the OS
/// Downloads folder and the home folder: the first that is present, else the
/// current directory.
pub open spec fn chosen_download_dir(configured: Option<Seq<char>>, downloads: Option<Seq<char>>, home: Option<Seq<char>>) -> Seq<char> {
    match configured {
        Some(d) => d,
        None => match downloads {
            Some(d) => d,
            None => match home {
                Some(h) => h,
                None => "."@,
            },
        },
    }
}

/// The text of an optional string.
pub open spec fn opt_view(s: Option<String>) -> Option<Seq<char>> {
    match s {
        Some(t) => Some(t@),
        None => None,
    }
}

/// Pick the download directory from the configured one and the OS folders.
pub fn pick_download_dir(configured: Option<String>, downloads: Option<String>, home: Option<String>) -> (r: String)
    ensures
        r@ == chosen_download_dir(opt_view(configured), opt_view(downloads), opt_view(home)),
{
    match configured {
        Some(d) => d,
        None => match downloads {
            Some(d) => d,
            None => match home {
                Some(h) => h,
                None => String::from_str("."),
            },
        },
    }
}

/// Resolve the effective download directory: the configured one, or the OS
/// Downloads folder, or the home dir as a last resort.
pub fn downloads_dir(cfg: &Config) -> (r: String)
    ensures
        cfg.download_dir matches Some(d) ==> r@ == d@,
{
    match &cfg.download_dir {
        Some(d) => d.clone(),
        None => {
            let downloads = os_download_dir();
            let home = match downloads {
                Some(_) => None,
                None => os_home_dir(),
            };
            pick_download_dir(None, downloads, home)
        },
    }
}

// ---------------------------------------------------------------------------
// The built-in library
// ---------------------------------------------------------------------------

/// `l` is the built-in git-managed library whose hymns live at `hymns_path`.
pub open spec fn is_builtin_library(l: Library, hymns_path: Seq<char>) -> bool {
    &&& l.name@ == DEFAULT_LIBRARY_NAME@
    &&& l.path@ == hymns_path
    &&& l.enabled
    &&& l.managed_by_git
}

/// Where the default library's hymns live under the app data directory.
pub open spec fn default_hymns_path(data_dir: Seq<char>) -> Seq<char> {
    path_joined(path_joined(data_dir, DEFAULT_LIBRARY_DIR_NAME@), DEFAULT_REPO_HYMNS_SUBDIR@)
}

/// The built-in git-managed library entry with its hymns at `hymns_path`.
pub fn builtin_library(hymns_path: String) -> (r: Library)
    ensures
        is_builtin_library(r, hymns_path@),
{
    Library { name: String::from_str(DEFAULT_LIBRARY_NAME), path: hymns_path, enabled: true, managed_by_git: true }
}

/// Directory where the default git library is cloned, under the app data
/// directory `data_dir`.
pub fn default_library_dir_in(data_dir: &str) -> (r: String)
    ensures
        r@ == path_joined(data_dir@, DEFAULT_LIBRARY_DIR_NAME@),
{
    join_path(data_dir, DEFAULT_LIBRARY_DIR_NAME)
}

/// The built-in git-managed library entry for the app data directory
/// `data_dir`.
pub fn default_library_in(data_dir: &str) -> (r: Library)
    ensures
        is_builtin_library(r, default_hymns_path(data_dir@)),
{
    let dir = default_library_dir_in(data_dir);
    builtin_library(join_path(dir.as_str(), DEFAULT_REPO_HYMNS_SUBDIR))
}

/// The built-in git-managed library entry (name + hymns-subdir path), or `None`
/// if the data directory can't be determined. Single source of truth shared by
/// the indexer's registration and the Settings UI so they can't drift.
pub fn default_library() -> (r: Option<Library>)
    ensures
        r matches Some(l) ==> exists|d: Seq<char>| is_builtin_library(l, #[trigger] default_hymns_path(d)),
{
    match project_data_dir() {
        Some(d) => Some(default_library_in(d.as_str())),
        None => None,
    }
}

// ---------------------------------------------------------------------------
// Editing the list of libraries
// ---------------------------------------------------------------------------

/// Whether a library folder is currently reachable on disk. Used for the
/// Settings "unavailable" marker; an unreachable folder is simply skipped at
/// index time (the crawl yields nothing) rather than being an error.
pub fn library_available(path: &str) -> bool {
    path_is_dir(path)
}

/// The libraries with the `enabled` flag of every library at `path` set to
/// `enabled`.
pub open spec fn with_enabled(libs: Seq<Library>, path: Seq<char>, enabled: bool) -> Seq<Library> {
    libs.map_values(|l: Library| if l.path@ == path { Library { enabled: enabled, ..l } } else { l })
}

/// Set the `enabled` flag of the library whose `path` matches. Works on any
/// library, including the default — the default may be disabled (just not
/// removed). No-op if no library has that path.
pub fn set_library_enabled(cfg: &mut Config, path: &str, enabled: bool)
    ensures
        final(cfg).libraries@ == with_enabled(old(cfg).libraries@, path@, enabled),
        final(cfg).default_repo_url == old(cfg).default_repo_url,
        final(cfg).download_dir == old(cfg).download_dir,
        final(cfg).language == old(cfg).language,
{
    let ghost before = cfg.libraries@;
    let mut old_libs: Vec<Library> = Vec::new();
    std::mem::swap(&mut old_libs, &mut cfg.libraries);
    let mut out: Vec<Library> = Vec::new();
    for lib in it: old_libs.into_iter()
        invariant
            it.seq() == before,
            out.len() == it.index(),
            forall|k: int| 0 <= k < out.len() ==> #[trigger] out@[k] == with_enabled(before, path@, enabled)[k],
    {
        let mut lib = lib;
        if str_eq(lib.path.as_str(), path) {
            lib.enabled = enabled;
        }
        out.push(lib);
    }
    assert(out@ == with_enabled(before, path@, enabled));
    cfg.libraries = out;
}

/// The libraries that survive removing `path`: git-managed ones always stay;
/// others stay unless their path is `path`. Order is kept.
pub open spec fn without_path(libs: Seq<Library>, path: Seq<char>) -> Seq<Library>
    decreases libs.len(),
{
    if libs.len() == 0 {
        libs
    } else {
        let rest = without_path(libs.drop_last(), path);
        let l = libs.last();
        if l.managed_by_git || l.path@ != path {
            rest.push(l)
        } else {
            rest
        }
    }
}

/// Remove the library whose `path` matches. Refuses to remove a
/// `managed_by_git` entry (the default library is locked against removal).
/// No-op if no matching removable library is found.
pub fn remove_user_library(cfg: &mut Config, path: &str)
    ensures
        final(cfg).libraries@ == without_path(old(cfg).libraries@, path@),
        final(cfg).default_repo_url == old(cfg).default_repo_url,
        final(cfg).download_dir == old(cfg).download_dir,
        final(cfg).language == old(cfg).language,
{
    let ghost before = cfg.libraries@;
    let mut old_libs: Vec<Library> = Vec::new();
    std::mem::swap(&mut old_libs, &mut cfg.libraries);
    let mut out: Vec<Library> = Vec::new();
    for lib in it: old_libs.into_iter()
        invariant
            it.seq() == before,
            out@ == without_path(before.take(it.index() as int), path@),
    {
        proof {
            let t = before.take(it.index() + 1);
            assert(t.drop_last() == before.take(it.index() as int));
            assert(t.last() == lib);
        }
        if lib.managed_by_git || !str_eq(lib.path.as_str(), path) {
            out.push(lib);
        }
    }
    assert(before.take(before.len() as int) == before);
    cfg.libraries = out;
}

/// Why a folder could not be added as a library.
#[derive(Debug, Clone, Copy, PartialEq, Eq, Structural)]
pub enum AddLibraryError {
    /// The path is not an existing folder.
    NotAFolder,
    /// A library with the same canonical folder is already present.
    AlreadyAdded,
}

/// The user library added for the folder whose canonical path is `canon`,
/// with the display name `name`.
pub open spec fn is_user_library(l: Library, canon: Seq<char>, name: Seq<char>) -> bool {
    &&& l.name@ == name
    &&& l.path@ == canon
    &&& l.enabled
    &&& !l.managed_by_git
}

/// The display name of a user library: the last component of its canonical
/// path, or the whole path when that is missing or empty.
pub open spec fn library_display_name(canon: Seq<char>) -> Seq<char> {
    match path_file_name(canon) {
        Some(n) => if n.len() > 0 {
            n
        } else {
            canon
        },
        None => canon,
    }
}

/// Add the folder whose canonical path is `canon` as a user library, given
/// whether it is a folder and the canonical forms of the paths of the
/// libraries already present (`existing[i]` for `cfg.libraries[i]`).
pub fn add_library_entry(cfg: &mut Config, is_dir: bool, canon: String, existing: &Vec<String>) -> (r: Result<(), AddLibraryError>)
    requires
        existing.len() == old(cfg).libraries.len(),
    ensures
        !is_dir ==> r == Err::<(), AddLibraryError>(AddLibraryError::NotAFolder),
        is_dir && (exists|i: int| 0 <= i < existing@.len() && (#[trigger] existing@[i])@ == canon@)
            ==> r == Err::<(), AddLibraryError>(AddLibraryError::AlreadyAdded),
        is_dir && !(exists|i: int| 0 <= i < existing@.len() && (#[trigger] existing@[i])@ == canon@)
            ==> r is Ok,
        r is Ok ==> final(cfg).libraries.len() == old(cfg).libraries.len() + 1
            && final(cfg).libraries@.drop_last() == old(cfg).libraries@
            && is_user_library(final(cfg).libraries@.last(), canon@, library_display_name(canon@)),
        r is Err ==> final(cfg).libraries == old(cfg).libraries,
        final(cfg).default_repo_url == old(cfg).default_repo_url,
        final(cfg).download_dir == old(cfg).download_dir,
        final(cfg).language == old(cfg).language,
{
    if !is_dir {
        return Err(AddLibraryError::NotAFolder);
    }
    let mut i: usize = 0;
    while i < existing.len()
        invariant
            is_dir,
            i <= existing.len(),
            forall|j: int| 0 <= j < i ==> (#[trigger] existing@[j])@ != canon@,
        decreases existing.len() - i,
    {
        if str_eq(existing[i].as_str(), canon.as_str()) {
            assert((existing@[i as int])@ == canon@);
            return Err(AddLibraryError::AlreadyAdded);
        }
        i += 1;
    }
    let name = match file_name_of(canon.as_str()) {
        Some(n) => if !n.as_str().is_empty() {
            n
        } else {
            canon.clone()
        },
        None => canon.clone(),
    };
    cfg.libraries.push(Library { name, path: canon, enabled: true, managed_by_git: false });
    Ok(())
}

/// Canonicalize `path` for stable comparison; falls back to the input as-is
/// if canonicalization fails (e.g. the folder is on an unmounted drive).
fn canonical_string(path: &str) -> (r: String) {
    match canonicalize_path(path) {
        Some(c) => c,
        None => String::from_str(path),
    }
}

/// Add a user folder as a `Library`. The display name is the folder's last
/// path component (falling back to the full path). `managed_by_git = false`,
/// `enabled = true`. The stored path is the canonicalized form. Returns `Err`
/// if the folder is already present (compared canonically) or does not exist.
pub fn add_user_library(cfg: &mut Config, path: &str) -> (r: Result<(), AddLibraryError>)
    ensures
        r is Ok ==> final(cfg).libraries.len() == old(cfg).libraries.len() + 1
            && final(cfg).libraries@.drop_last() == old(cfg).libraries@
            && (exists|canon: Seq<char>| #[trigger] is_user_library(final(cfg).libraries@.last(), canon, library_display_name(canon))),
        r is Err ==> final(cfg).libraries == old(cfg).libraries,
        final(cfg).default_repo_url == old(cfg).default_repo_url,
        final(cfg).download_dir == old(cfg).download_dir,
        final(cfg).language == old(cfg).language,
{
    let is_dir = path_is_dir(path);
    if !is_dir {
        return Err(AddLibraryError::NotAFolder);
    }
    let canon = canonical_string(path);
    let mut existing: Vec<String> = Vec::new();
    let mut i: usize = 0;
    while i < cfg.libraries.len()
        invariant
            i <= cfg.libraries.len(),
            existing.len() == i,
        decreases cfg.libraries.len() - i,
    {
        existing.push(canonical_string(cfg.libraries[i].path.as_str()));
        i += 1;
    }
    let ghost c = canon@;
    let r = add_library_entry(cfg, is_dir, canon, &existing);
    proof {
        if r is Ok {
            assert(is_user_library(cfg.libraries@.last(), c, library_display_name(c)));
        }
    }
    r
}

/// Removing a folder undoes adding it: adding a user library for `canon` and
/// then removing `canon` leaves the same libraries as removing `canon` alone,
/// which is the original list when no user library had that path.
pub proof fn remove_undoes_add(libs: Seq<Library>, added: Library, canon: Seq<char>, name: Seq<char>)
    requires
        is_user_library(added, canon, name),
    ensures
        without_path(libs.push(added), canon) == without_path(libs, canon),
        (forall|i: int| 0 <= i < libs.len() ==> (#[trigger] libs[i]).managed_by_git || libs[i].path@ != canon)
            ==> without_path(libs, canon) == libs,
{
    assert(libs.push(added).drop_last() == libs);
    if forall|i: int| 0 <= i < libs.len() ==> (#[trigger] libs[i]).managed_by_git || libs[i].path@ != canon {
        lemma_without_path_keeps_all(libs, canon);
    }
}

proof fn lemma_without_path_keeps_all(libs: Seq<Library>, path: Seq<char>)
    requires
        forall|i: int| 0 <= i < libs.len() ==> (#[trigger] libs[i]).managed_by_git || libs[i].path@ != path,
    ensures
        without_path(libs, path) == libs,
    decreases libs.len(),
{
    if libs.len() > 0 {
        let p = libs.drop_last();
        assert forall|i: int| 0 <= i < p.len() implies (#[trigger] p[i]).managed_by_git || p[i].path@ != path by {
            assert(p[i] == libs[i]);
        }
        lemma_without_path_keeps_all(p, path);
        assert(libs.last() == libs[libs.len() - 1]);
        assert(p.push(libs.last()) == libs);
    }
}

/// The default library can never be removed: every git-managed library
/// survives `remove_user_library`, whatever path is removed.
pub proof fn git_managed_libraries_survive_removal(libs: Seq<Library>, path: Seq<char>, l: Library)
    requires
        libs.contains(l),
        l.managed_by_git,
    ensures
        without_path(libs, path).contains(l),
    decreases libs.len(),
{
    if libs.last() == l {
        assert(without_path(libs, path).last() == l);
    } else {
        let i = choose|i: int| 0 <= i < libs.len() && libs[i] == l;
        assert(libs.drop_last()[i] == l);
        git_managed_libraries_survive_removal(libs.drop_last(), path, l);
        let rest = without_path(libs.drop_last(), path);
        let j = choose|j: int| 0 <= j < rest.len() && rest[j] == l;
        if libs.last().managed_by_git || libs.last().path@ != path {
            assert(rest.push(libs.last())[j] == l);
        }
    }
}

/// Enabling or disabling never adds, removes or reorders libraries, and
/// touches only the flag of the libraries at that path.
pub proof fn enabling_keeps_the_list(libs: Seq<Library>, path: Seq<char>, enabled: bool)
    ensures
        with_enabled(libs, path, enabled).len() == libs.len(),
        forall|i: int| 0 <= i < libs.len() ==> {
            let l = #[trigger] with_enabled(libs, path, enabled)[i];
            &&& l.name == libs[i].name
            &&& l.path == libs[i].path
            &&& l.managed_by_git == libs[i].managed_by_git
            &&& l.enabled == (if libs[i].path@ == path { enabled } else { libs[i].enabled })
        },
{
}

} // verus!
