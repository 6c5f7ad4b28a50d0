//! The decisions of the library-loading pipeline shared by app boot and
//! "force sync": registering the default library, which libraries are
//! indexed, and when the cached index stands in for a fresh one. The
//! application clones or pulls, crawls, reads files and writes the cache.

use vstd::prelude::*;
use crate::library::{builtin_library, copy_library, is_builtin_library, join_path, path_joined, Config, Library, DEFAULT_REPO_HYMNS_SUBDIR};
use crate::model::HymnEntry;

verus! {

/// Whether any of `libs` is git-managed.
pub open spec fn has_managed(libs: Seq<Library>) -> bool {
    exists|i: int| 0 <= i < libs.len() && (#[trigger] libs[i]).managed_by_git
}

/// Where the default library's hymns live inside its clone at `clone_dir`.
pub open spec fn hymns_dir_of(clone_dir: Seq<char>) -> Seq<char> {
    path_joined(clone_dir, DEFAULT_REPO_HYMNS_SUBDIR@)
}

/// Ensure the default library is registered in `cfg`: when no git-managed
/// library is there yet, add the built-in one with its hymns under the clone
/// at `clone_dir`. Nothing else changes.
pub fn register_default_library(cfg: &mut Config, clone_dir: &str)
    ensures
        has_managed(old(cfg).libraries@) ==> final(cfg).libraries@ == old(cfg).libraries@,
        !has_managed(old(cfg).libraries@) ==> {
            &&& final(cfg).libraries@.len() == old(cfg).libraries@.len() + 1
            &&& final(cfg).libraries@.drop_last() == old(cfg).libraries@
            &&& is_builtin_library(final(cfg).libraries@.last(), hymns_dir_of(clone_dir@))
        },
        has_managed(final(cfg).libraries@),
        final(cfg).default_repo_url == old(cfg).default_repo_url,
        final(cfg).download_dir == old(cfg).download_dir,
        final(cfg).language == old(cfg).language,
{
    let mut i: usize = 0;
    while i < cfg.libraries.len()
        invariant
            i <= cfg.libraries.len(),
            forall|j: int| 0 <= j < i ==> !(#[trigger] cfg.libraries@[j]).managed_by_git,
        decreases cfg.libraries.len() - i,
    {
        if cfg.libraries[i].managed_by_git {
            return;
        }
        i += 1;
    }
    let hymns = join_path(clone_dir, DEFAULT_REPO_HYMNS_SUBDIR);
    let lib = builtin_library(hymns);
    cfg.libraries.push(lib);
    proof {
        let n = cfg.libraries@.len() - 1;
        assert(cfg.libraries@[n].managed_by_git);
    }
}

/// Registering the default library twice is the same as registering it
/// once: after the first registration a git-managed library is present, so
/// the second changes nothing.
pub proof fn registering_is_idempotent(libs: Seq<Library>, added: Library, clone_dir: Seq<char>)
    requires
        !has_managed(libs),
        is_builtin_library(added, hymns_dir_of(clone_dir)),
    ensures
        has_managed(libs.push(added)),
{
    assert(libs.push(added)[libs.len() as int] == added);
}

/// The libraries that are indexed: the enabled ones, in order.
pub open spec fn enabled_only(libs: Seq<Library>) -> Seq<Library>
    decreases libs.len(),
{
    if libs.len() == 0 {
        seq![]
    } else if libs.last().enabled {
        enabled_only(libs.drop_last()).push(libs.last())
    } else {
        enabled_only(libs.drop_last())
    }
}

/// The libraries of `cfg` that are indexed: the enabled ones, in order.
pub fn libraries_to_index(cfg: &Config) -> (r: Vec<Library>)
    ensures
        r@ == enabled_only(cfg.libraries@),
{
    let mut out: Vec<Library> = Vec::new();
    let mut i: usize = 0;
    while i < cfg.libraries.len()
        invariant
            i <= cfg.libraries.len(),
            out@ == enabled_only(cfg.libraries@.take(i as int)),
        decreases cfg.libraries.len() - i,
    {
        proof {
            let t = cfg.libraries@.take(i + 1);
            assert(t.drop_last() == cfg.libraries@.take(i as int));
            assert(t.last() == cfg.libraries@[i as int]);
        }
        if cfg.libraries[i].enabled {
            out.push(copy_library(&cfg.libraries[i]));
        }
        i += 1;
    }
    assert(cfg.libraries@.take(cfg.libraries.len() as int) == cfg.libraries@);
    out
}

/// The cached index a load starts from: nothing when forced (the cache is
/// ignored, forcing a full re-parse), else what the cache held, or nothing
/// when it could not be read.
pub fn starting_cache(loaded: Option<Vec<HymnEntry>>, force: bool) -> (r: Vec<HymnEntry>)
    ensures
        force ==> r@.len() == 0,
        !force ==> r@ == (match loaded {
            Some(v) => v@,
            None => Seq::<HymnEntry>::empty(),
        }),
{
    if force {
        return Vec::new();
    }
    match loaded {
        Some(v) => v,
        None => Vec::new(),
    }
}

/// The index a load ends with: what was indexed, except that when nothing
/// was indexed and the load was not forced, the cached entries stand in.
pub open spec fn final_index(fresh: Seq<HymnEntry>, cached: Seq<HymnEntry>, force: bool) -> Seq<HymnEntry> {
    if fresh.len() == 0 && !force {
        cached
    } else {
        fresh
    }
}

/// The index a load ends with (see `final_index`).
pub fn index_or_cached(fresh: Vec<HymnEntry>, cached: Vec<HymnEntry>, force: bool) -> (r: Vec<HymnEntry>)
    ensures
        r@ == final_index(fresh@, cached@, force),
{
    if fresh.len() == 0 && !force {
        cached
    } else {
        fresh
    }
}

/// A load that is not forced never leaves the application with an empty
/// index while the cache held entries.
pub proof fn unforced_load_keeps_cached_hymns(cached: Seq<HymnEntry>, fresh: Seq<HymnEntry>)
    requires
        cached.len() > 0,
    ensures
        final_index(fresh, cached, false).len() > 0,
        fresh.len() > 0 ==> final_index(fresh, cached, false) == fresh,
{
}

} // verus!
