//! Which files of a library folder are hymns, and how the on-disk index
//! cache is trusted and reused. The application walks the folders, reads
//! file times and bytes, and (de)serialises the cache.

use vstd::prelude::*;
use crate::library::{file_name_of, path_file_name};
use crate::model::HymnEntry;
use crate::pptx::ParsedPptx;
use crate::text::{
    ascii_lowercase, chars_of, decimal, ends_with, has_prefix, has_suffix, starts_with,
    to_ascii_lowercase, u32_to_decimal, views,
};

verus! {

/// On-disk cache format version. Bump this whenever the parser or entry layout
/// changes in a way that makes previously-cached entries stale (e.g. improved
/// title extraction). A mismatch makes the cache a miss, forcing a full
/// re-parse even though the underlying .pptx mtimes are unchanged.
pub const CACHE_VERSION: u32 = 2;

/// A file name the index takes: it ends in ".pptx" (in any ASCII case) and is
/// not an Office lock file ("~$...").
pub open spec fn is_pptx_name(name: Seq<char>) -> bool {
    has_suffix(ascii_lowercase(name), seq!['.', 'p', 'p', 't', 'x']) && !has_prefix(name, seq!['~', '$'])
}

/// Whether a file name is one the index takes.
pub fn is_pptx_file_name(name: &str) -> (r: bool)
    ensures
        r == is_pptx_name(name@),
{
    let v = chars_of(name);
    let lower = to_ascii_lowercase(v.as_slice());
    let ext = vec!['.', 'p', 'p', 't', 'x'];
    let lock = vec!['~', '$'];
    ends_with(lower.as_slice(), ext.as_slice()) && !starts_with(v.as_slice(), lock.as_slice())
}

/// A path the index takes: its file name is a .pptx that is not a lock file.
pub open spec fn is_pptx_path(path: Seq<char>) -> bool {
    match path_file_name(path) {
        Some(n) => is_pptx_name(n),
        None => false,
    }
}

/// The paths of `files` the index takes, in their order.
pub open spec fn pptx_only(files: Seq<Seq<char>>) -> Seq<Seq<char>>
    decreases files.len(),
{
    if files.len() == 0 {
        seq![]
    } else if is_pptx_path(files.last()) {
        pptx_only(files.drop_last()).push(files.last())
    } else {
        pptx_only(files.drop_last())
    }
}

/// Of the regular files found under a library folder, the .pptx ones
/// (skipping `~$` lock files and everything else), in the order found.
pub fn pptx_paths(files: &Vec<String>) -> (r: Vec<String>)
    ensures
        views(r@) == pptx_only(views(files@)),
{
    let mut out: Vec<String> = Vec::new();
    let mut i: usize = 0;
    while i < files.len()
        invariant
            i <= files.len(),
            views(out@) == pptx_only(views(files@).take(i as int)),
        decreases files.len() - i,
    {
        let ghost before = views(files@).take(i as int);
        let ghost after = views(files@).take(i + 1);
        proof {
            assert(after.drop_last() == before);
            assert(after.last() == files@[i as int]@);
        }
        let keep = match file_name_of(files[i].as_str()) {
            Some(n) => is_pptx_file_name(n.as_str()),
            None => false,
        };
        if keep {
            let p = files[i].clone();
            proof {
                assert(views(out@.push(p)) == views(out@).push(p@));
            }
            out.push(p);
        }
        i += 1;
    }
    assert(views(files@).take(files.len() as int) == views(files@));
    out
}

/// The crawl keeps only hymn files: every path it keeps was found, and its
/// file name is a .pptx that is not a lock file.
pub proof fn crawl_keeps_only_hymn_files(files: Seq<Seq<char>>)
    ensures
        forall|k: int| 0 <= k < pptx_only(files).len() ==> {
            &&& is_pptx_path(#[trigger] pptx_only(files)[k])
            &&& files.contains(pptx_only(files)[k])
        },
    decreases files.len(),
{
    if files.len() > 0 {
        let rest = files.drop_last();
        crawl_keeps_only_hymn_files(rest);
        let out = pptx_only(files);
        assert forall|k: int| 0 <= k < out.len() implies is_pptx_path(#[trigger] out[k]) && files.contains(out[k]) by {
            if k < pptx_only(rest).len() {
                assert(out[k] == pptx_only(rest)[k]);
                let j = choose|j: int| 0 <= j < rest.len() && rest[j] == out[k];
                assert(files[j] == rest[j]);
            } else {
                assert(out[k] == files.last());
                assert(files[files.len() - 1] == files.last());
            }
        }
    }
}

/// The entries of a cache written with format `version`: kept only when the
/// version is the current one (anything else is a miss).
pub fn cached_entries(version: u32, entries: Vec<HymnEntry>) -> (r: Option<Vec<HymnEntry>>)
    ensures
        version == CACHE_VERSION ==> r == Some(entries),
        version != CACHE_VERSION ==> r is None,
{
    if version != CACHE_VERSION {
        return None;
    }
    Some(entries)
}

/// The first of `cached` recorded for `path` with modification time `mtime`.
pub open spec fn first_cached(cached: Seq<HymnEntry>, path: Seq<char>, mtime: i64) -> Option<int> {
    if exists|i: int| 0 <= i < cached.len() && #[trigger] cached[i].path@ == path && cached[i].mtime == mtime {
        Some(choose|i: int|
            0 <= i < cached.len() && cached[i].path@ == path && cached[i].mtime == mtime && forall|j: int|
                0 <= j < i ==> !(#[trigger] cached[j].path@ == path && cached[j].mtime == mtime))
    } else {
        None
    }
}

/// A cached entry can stand for the file at `path` when it was recorded for
/// that path with the same modification time: the first such entry, if any.
pub fn find_cached(cached: &Vec<HymnEntry>, path: &str, mtime: i64) -> (r: Option<usize>)
    ensures
        match r {
            Some(i) => {
                &&& i < cached.len()
                &&& cached@[i as int].path@ == path@
                &&& cached@[i as int].mtime == mtime
                &&& forall|j: int| 0 <= j < i ==> !(#[trigger] cached@[j].path@ == path@ && cached@[j].mtime == mtime)
                &&& first_cached(cached@, path@, mtime) == Some(i as int)
            },
            None => {
                &&& forall|j: int| 0 <= j < cached.len() ==> !(#[trigger] cached@[j].path@ == path@ && cached@[j].mtime == mtime)
                &&& first_cached(cached@, path@, mtime) is None
            },
        },
{
    let p = chars_of(path);
    let mut i: usize = 0;
    while i < cached.len()
        invariant
            i <= cached.len(),
            p@ == path@,
            forall|j: int| 0 <= j < i ==> !(#[trigger] cached@[j].path@ == path@ && cached@[j].mtime == mtime),
        decreases cached.len() - i,
    {
        if cached[i].mtime == mtime {
            let q = chars_of(cached[i].path.as_str());
            if crate::text::chars_equal(q.as_slice(), p.as_slice()) {
                proof {
                    lemma_first_is_unique(cached@, path@, mtime, i as int);
                }
                return Some(i);
            }
        }
        i += 1;
    }
    None
}

proof fn lemma_first_is_unique(cached: Seq<HymnEntry>, path: Seq<char>, mtime: i64, i: int)
    requires
        0 <= i < cached.len(),
        cached[i].path@ == path && cached[i].mtime == mtime,
        forall|j: int| 0 <= j < i ==> !(#[trigger] cached[j].path@ == path && cached[j].mtime == mtime),
    ensures
        first_cached(cached, path, mtime) == Some(i),
{
    let w = choose|w: int|
        0 <= w < cached.len() && cached[w].path@ == path && cached[w].mtime == mtime && forall|j: int|
            0 <= j < w ==> !(#[trigger] cached[j].path@ == path && cached[j].mtime == mtime);
    assert(cached[i].path@ == path);
    if w < i {
        assert(!(cached[w].path@ == path && cached[w].mtime == mtime));
    } else if w > i {
        assert(!(cached[i].path@ == path && cached[i].mtime == mtime));
    }
}

/// `e` is the entry for the hymn parsed from the file at `path` (modified at
/// `mtime`) in the library named `library`: the number in decimal, the
/// parsed title, body and slides as they are.
pub open spec fn entry_of(e: HymnEntry, parsed: ParsedPptx, path: Seq<char>, library: Seq<char>, mtime: i64) -> bool {
    &&& match (e.number, parsed.number) {
        (Some(s), Some(n)) => s@ == decimal(n as nat),
        (None, None) => true,
        _ => false,
    }
    &&& e.title == parsed.title
    &&& e.body == parsed.body
    &&& e.slides == parsed.slides
    &&& e.path@ == path
    &&& e.library@ == library
    &&& e.mtime == mtime
}

/// The index entry for a freshly parsed file.
pub fn entry_from_parsed(parsed: ParsedPptx, path: String, library: &str, mtime: i64) -> (r: HymnEntry)
    ensures
        entry_of(r, parsed, path@, library@, mtime),
{
    let number = match parsed.number {
        Some(n) => Some(u32_to_decimal(n)),
        None => None,
    };
    HymnEntry {
        number,
        title: parsed.title,
        body: parsed.body,
        slides: parsed.slides,
        path,
        library: String::from_str(library),
        mtime,
    }
}

/// A file whose path and modification time are those recorded in the cache
/// is taken from the cache: the lookup finds an entry for it, recorded for
/// the same path and time, no later than the recorded one.
pub proof fn unchanged_file_hits_cache(cached: Seq<HymnEntry>, k: int)
    requires
        0 <= k < cached.len(),
    ensures
        first_cached(cached, cached[k].path@, cached[k].mtime) matches Some(i) && 0 <= i <= k
            && cached[i].path@ == cached[k].path@ && cached[i].mtime == cached[k].mtime,
{
    let path = cached[k].path@;
    let mtime = cached[k].mtime;
    lemma_first_match_exists(cached, path, mtime, k);
    let i = choose|i: int|
        0 <= i <= k && cached[i].path@ == path && cached[i].mtime == mtime && forall|j: int|
            0 <= j < i ==> !(#[trigger] cached[j].path@ == path && cached[j].mtime == mtime);
    lemma_first_is_unique(cached, path, mtime, i);
}

proof fn lemma_first_match_exists(cached: Seq<HymnEntry>, path: Seq<char>, mtime: i64, k: int)
    requires
        0 <= k < cached.len(),
        cached[k].path@ == path && cached[k].mtime == mtime,
    ensures
        exists|i: int|
            0 <= i <= k && cached[i].path@ == path && cached[i].mtime == mtime && forall|j: int|
                0 <= j < i ==> !(#[trigger] cached[j].path@ == path && cached[j].mtime == mtime),
    decreases k,
{
    if exists|j: int| 0 <= j < k && #[trigger] cached[j].path@ == path && cached[j].mtime == mtime {
        let j = choose|j: int| 0 <= j < k && #[trigger] cached[j].path@ == path && cached[j].mtime == mtime;
        lemma_first_match_exists(cached, path, mtime, j);
    } else {
        assert(forall|j: int| 0 <= j < k ==> !(#[trigger] cached[j].path@ == path && cached[j].mtime == mtime));
    }
}

} // verus!
