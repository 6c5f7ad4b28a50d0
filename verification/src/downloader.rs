//! Decisions of the YouTube downloader: how yt-dlp's progress lines are read,
//! which binaries and archives to fetch for a platform, which arguments
//! yt-dlp gets, when the title is announced, and what a failure reports.
//! The application spawns the processes, downloads and reads their output.

use vstd::prelude::*;
use crate::library::{file_name_of, join_path, opt_view, path_file_name, path_joined, project_data_dir};
use crate::text::{
    chars_of, contains, ends_with, has_infix, has_prefix, has_suffix, parse_u64,
    parse_u64_spec, push_str, starts_with, str_eq, strip_suffixes, strip_suffixes_exec,
    string_of_range, trim, trim_bounds, trimmed_chars, views,
};

verus! {

// ---------------------------------------------------------------------------
// Progress lines
// ---------------------------------------------------------------------------

/// yt-dlp progress template that produces lines the parser understands. The
/// title rides on every progress line via `%(info.title)s` so it arrives
/// without `--print` — `--print` puts yt-dlp in a quiet mode that SUPPRESSES
/// progress output entirely.
pub const PROGRESS_TEMPLATE: &'static str =
    "download:PROGRESS|%(progress._percent_str)s|%(progress._speed_str)s|%(progress._eta_str)s|%(info.title)s";

/// The fields of one progress line, as text. The percentage is still text:
/// reading it as a number (and dropping lines where that fails, such as
/// "N/A") is the caller's part.
#[derive(Debug, Clone, PartialEq, Eq)]
pub struct ProgressLine {
    pub percent: String,
    pub speed: String,
    pub eta: String,
    /// Video title, carried on every progress line (the template includes it).
    pub title: String,
}

/// "PROGRESS|"
pub open spec fn progress_prefix() -> Seq<char> {
    seq!['P', 'R', 'O', 'G', 'R', 'E', 'S', 'S', '|']
}

/// `s` split at its first `c`: the text before and the text after it.
pub open spec fn char_split(s: Seq<char>, c: char) -> Option<(Seq<char>, Seq<char>)>
    decreases s.len(),
{
    if s.len() == 0 {
        None
    } else if s[0] == c {
        Some((seq![], s.drop_first()))
    } else {
        match char_split(s.drop_first(), c) {
            Some((a, b)) => Some((seq![s[0]] + a, b)),
            None => None,
        }
    }
}

/// The fields of a progress line emitted by the progress template
/// (`PROGRESS|<pct>%|<speed>|<eta>|<title>`), each trimmed, the percentage
/// without its '%' signs; `None` for any other line. The title field is last
/// and may itself contain `|`, so it is the remainder after the first three
/// splits; it is empty when absent (older template).
pub open spec fn progress_fields(line: Seq<char>) -> Option<(Seq<char>, Seq<char>, Seq<char>, Seq<char>)> {
    let t = trim(line);
    if !has_prefix(t, progress_prefix()) {
        None
    } else {
        match char_split(t.skip(9), '|') {
            None => None,
            Some((a, r1)) => match char_split(r1, '|') {
                None => None,
                Some((b, r2)) => {
                    let (c, d) = match char_split(r2, '|') {
                        Some((c, d)) => (c, d),
                        None => (r2, seq![]),
                    };
                    Some((trim(strip_suffixes(trim(a), seq!['%'])), trim(b), trim(c), trim(d)))
                },
            },
        }
    }
}

proof fn lemma_char_split_at(s: Seq<char>, c: char, i: int)
    requires
        0 <= i < s.len(),
        s[i] == c,
        forall|j: int| 0 <= j < i ==> s[j] != c,
    ensures
        char_split(s, c) == Some((s.take(i), s.skip(i + 1))),
    decreases i,
{
    if i > 0 {
        let t = s.drop_first();
        assert forall|j: int| 0 <= j < i - 1 implies t[j] != c by {
            assert(t[j] == s[j + 1]);
        }
        lemma_char_split_at(t, c, i - 1);
        assert(seq![s[0]] + t.take(i - 1) == s.take(i));
        assert(t.skip(i) == s.skip(i + 1));
    } else {
        assert(s.take(0) == Seq::<char>::empty());
        assert(s.drop_first() == s.skip(1));
    }
}

proof fn lemma_char_split_none(s: Seq<char>, c: char)
    requires
        forall|j: int| 0 <= j < s.len() ==> s[j] != c,
    ensures
        char_split(s, c) is None,
    decreases s.len(),
{
    if s.len() > 0 {
        let t = s.drop_first();
        assert forall|j: int| 0 <= j < t.len() implies t[j] != c by {
            assert(t[j] == s[j + 1]);
        }
        lemma_char_split_none(t, c);
    }
}

/// Splitting at a character leaves a shorter remainder.
pub proof fn lemma_char_split_shorter(s: Seq<char>, c: char)
    ensures
        char_split(s, c) matches Some((a, r)) ==> r.len() < s.len(),
    decreases s.len(),
{
    if s.len() > 0 && s[0] != c {
        lemma_char_split_shorter(s.drop_first(), c);
    }
}

/// The text of a progress line with the given fields, as the template
/// writes it.
pub open spec fn progress_line_of(pct: Seq<char>, speed: Seq<char>, eta: Seq<char>, title: Seq<char>) -> Seq<char> {
    progress_prefix() + pct + seq!['|'] + speed + seq!['|'] + eta + seq!['|'] + title
}

/// Reading a progress line gives back the fields it was written with (each
/// trimmed, the percentage without its '%' signs) when the first three hold
/// no '|': the title is everything after the third '|', so a title may
/// itself contain '|'. (Lines with whitespace around them are trimmed
/// first; this statement is about lines without.)
pub proof fn progress_fields_round_trip(pct: Seq<char>, speed: Seq<char>, eta: Seq<char>, title: Seq<char>)
    requires
        !pct.contains('|'),
        !speed.contains('|'),
        !eta.contains('|'),
        trim(progress_line_of(pct, speed, eta, title)) == progress_line_of(pct, speed, eta, title),
    ensures
        progress_fields(progress_line_of(pct, speed, eta, title)) == Some(
            (trim(strip_suffixes(trim(pct), seq!['%'])), trim(speed), trim(eta), trim(title)),
        ),
{
    let line = progress_line_of(pct, speed, eta, title);
    let bar = seq!['|'];
    assert(line.subrange(0, 9) == progress_prefix());
    let rest = line.skip(9);
    assert(rest == pct + bar + speed + bar + eta + bar + title);
    let r1 = speed + bar + eta + bar + title;
    assert forall|j: int| 0 <= j < pct.len() implies rest[j] != '|' by {
        assert(rest[j] == pct[j]);
    }
    assert(rest[pct.len() as int] == '|');
    lemma_char_split_at(rest, '|', pct.len() as int);
    assert(rest.take(pct.len() as int) == pct);
    assert(rest.skip(pct.len() as int + 1) == r1);
    let r2 = eta + bar + title;
    assert forall|j: int| 0 <= j < speed.len() implies r1[j] != '|' by {
        assert(r1[j] == speed[j]);
    }
    assert(r1[speed.len() as int] == '|');
    lemma_char_split_at(r1, '|', speed.len() as int);
    assert(r1.take(speed.len() as int) == speed);
    assert(r1.skip(speed.len() as int + 1) == r2);
    assert forall|j: int| 0 <= j < eta.len() implies r2[j] != '|' by {
        assert(r2[j] == eta[j]);
    }
    assert(r2[eta.len() as int] == '|');
    lemma_char_split_at(r2, '|', eta.len() as int);
    assert(r2.take(eta.len() as int) == eta);
    assert(r2.skip(eta.len() as int + 1) == title);
}

/// The first position at or after `from` holding '|', if any.
fn next_bar(v: &Vec<char>, from: usize) -> (r: Option<usize>)
    requires
        from <= v.len(),
    ensures
        match r {
            Some(i) => from <= i < v.len() && v@[i as int] == '|' && forall|j: int| from <= j < i ==> v@[j] != '|',
            None => forall|j: int| from <= j < v.len() ==> v@[j] != '|',
        },
{
    let mut i = from;
    while i < v.len()
        invariant
            from <= i <= v.len(),
            forall|j: int| from <= j < i ==> v@[j] != '|',
        decreases v.len() - i,
    {
        if v[i] == '|' {
            return Some(i);
        }
        i += 1;
    }
    None
}

/// `trim(v[lo..hi])` as a `String`.
fn trimmed_range(v: &Vec<char>, lo: usize, hi: usize) -> (r: String)
    requires
        lo <= hi <= v.len(),
    ensures
        r@ == trim(v@.subrange(lo as int, hi as int)),
{
    let mut part: Vec<char> = Vec::new();
    let mut k = lo;
    while k < hi
        invariant
            lo <= k <= hi <= v.len(),
            part@ == v@.subrange(lo as int, k as int),
        decreases hi - k,
    {
        part.push(v[k]);
        assert(v@.subrange(lo as int, k + 1) == v@.subrange(lo as int, k as int).push(v@[k as int]));
        k += 1;
    }
    let (a, b) = trim_bounds(part.as_slice());
    string_of_range(part.as_slice(), a, b)
}

/// `trim(v[lo..hi])` as characters.
fn trimmed_range_chars(v: &Vec<char>, lo: usize, hi: usize) -> (r: Vec<char>)
    requires
        lo <= hi <= v.len(),
    ensures
        r@ == trim(v@.subrange(lo as int, hi as int)),
{
    let s = trimmed_range(v, lo, hi);
    chars_of(s.as_str())
}

/// Parse one yt-dlp output line into its progress fields, if it is a
/// progress line emitted by the progress template (`PROGRESS|<pct>%|<speed>|<eta>|<title>`).
/// Returns `None` for any other line. The title field is last and may itself
/// contain `|`, so it is taken as the remainder after the first three splits.
pub fn split_progress_line(line: &str) -> (r: Option<ProgressLine>)
    ensures
        match r {
            Some(p) => progress_fields(line@) == Some((p.percent@, p.speed@, p.eta@, p.title@)),
            None => progress_fields(line@) is None,
        },
{
    let t = crate::text::trimmed_chars(line);
    let prefix = vec!['P', 'R', 'O', 'G', 'R', 'E', 'S', 'S', '|'];
    assert(prefix@ == progress_prefix());
    if !starts_with(t.as_slice(), prefix.as_slice()) {
        return None;
    }
    let ghost rest = t@.skip(9);
    let b1 = match next_bar(&t, 9) {
        Some(i) => i,
        None => {
            proof {
                assert forall|j: int| 0 <= j < rest.len() implies rest[j] != '|' by {
                    assert(rest[j] == t@[j + 9]);
                }
                lemma_char_split_none(rest, '|');
            }
            return None;
        },
    };
    proof {
        assert forall|j: int| 0 <= j < b1 - 9 implies rest[j] != '|' by {
            assert(rest[j] == t@[j + 9]);
        }
        lemma_char_split_at(rest, '|', b1 - 9);
        assert(rest.take(b1 - 9) == t@.subrange(9, b1 as int));
        assert(rest.skip(b1 - 9 + 1) == t@.skip(b1 + 1));
    }
    let ghost r1 = t@.skip(b1 + 1);
    let b2 = match next_bar(&t, b1 + 1) {
        Some(i) => i,
        None => {
            proof {
                assert forall|j: int| 0 <= j < r1.len() implies r1[j] != '|' by {
                    assert(r1[j] == t@[j + b1 + 1]);
                }
                lemma_char_split_none(r1, '|');
            }
            return None;
        },
    };
    proof {
        assert forall|j: int| 0 <= j < b2 - b1 - 1 implies r1[j] != '|' by {
            assert(r1[j] == t@[j + b1 + 1]);
        }
        lemma_char_split_at(r1, '|', b2 - b1 - 1);
        assert(r1.take(b2 - b1 - 1) == t@.subrange(b1 + 1, b2 as int));
        assert(r1.skip(b2 - b1 - 1 + 1) == t@.skip(b2 + 1));
    }
    let ghost r2 = t@.skip(b2 + 1);
    let (c_end, title) = match next_bar(&t, b2 + 1) {
        Some(i) => {
            proof {
                assert forall|j: int| 0 <= j < i - b2 - 1 implies r2[j] != '|' by {
                    assert(r2[j] == t@[j + b2 + 1]);
                }
                lemma_char_split_at(r2, '|', i - b2 - 1);
                assert(r2.take(i - b2 - 1) == t@.subrange(b2 + 1, i as int));
                assert(r2.skip(i - b2 - 1 + 1) == t@.subrange(i + 1, t@.len() as int));
            }
            (i, trimmed_range(&t, i + 1, t.len()))
        },
        None => {
            proof {
                assert forall|j: int| 0 <= j < r2.len() implies r2[j] != '|' by {
                    assert(r2[j] == t@[j + b2 + 1]);
                }
                lemma_char_split_none(r2, '|');
                assert(r2 == t@.subrange(b2 + 1, t@.len() as int));
                assert(trim(Seq::<char>::empty()) == Seq::<char>::empty());
            }
            (t.len(), String::new())
        },
    };
    let pct0 = trimmed_range_chars(&t, 9, b1);
    let percent_sign = vec!['%'];
    assert(percent_sign@ == seq!['%']);
    let pct1 = strip_suffixes_exec(&pct0, &percent_sign);
    let percent = trimmed_range(&pct1, 0, pct1.len());
    assert(pct1@.subrange(0, pct1@.len() as int) == pct1@);
    let speed = trimmed_range(&t, b1 + 1, b2);
    let eta = trimmed_range(&t, b2 + 1, c_end);
    Some(ProgressLine { percent, speed, eta, title })
}

// ---------------------------------------------------------------------------
// Platforms, binaries and archives
// ---------------------------------------------------------------------------

/// The operating systems with their own yt-dlp and ffmpeg builds.
#[derive(Debug, Clone, Copy, PartialEq, Eq, Structural)]
pub enum Platform {
    Windows,
    MacOs,
    /// Linux and every other system (the universal x86_64 builds).
    Other,
}

/// std `path::MAIN_SEPARATOR`: '\\' on Windows, '/' elsewhere. It is a
/// property of the machine the library was built for; nothing is claimed.
#[verifier::external_body]
fn main_separator() -> char {
    std::path::MAIN_SEPARATOR
}

/// What std's `Path::is_file` says of a path now: a property of the file
/// system, so nothing is claimed.
#[verifier::external_body]
fn path_is_file(path: &str) -> bool {
    std::path::Path::new(path).is_file()
}

/// ".exe"
pub open spec fn exe_suffix() -> Seq<char> {
    seq!['.', 'e', 'x', 'e']
}

/// Executable file name for `stem`: with `.exe` on Windows.
pub open spec fn binary_file_name(stem: Seq<char>, windows: bool) -> Seq<char> {
    if windows {
        stem + exe_suffix()
    } else {
        stem
    }
}

/// Executable file name for `stem` on Windows (`windows`) or elsewhere.
pub fn binary_name_for(stem: &str, windows: bool) -> (r: String)
    ensures
        r@ == binary_file_name(stem@, windows),
{
    let mut s = String::from_str(stem);
    if windows {
        push_str(&mut s, ".exe");
        proof {
            reveal_strlit(".exe");
        }
    }
    s
}

/// Platform-correct executable file name (adds `.exe` on Windows).
pub fn binary_name(stem: &str) -> (r: String)
    ensures
        r@ == binary_file_name(stem@, true) || r@ == binary_file_name(stem@, false),
{
    binary_name_for(stem, main_separator() == '\\')
}

/// Return the path to `stem` inside `dir` if it exists there, else `None`.
pub fn resolve_in_dir(dir: &str, stem: &str) -> (r: Option<String>)
    ensures
        r matches Some(p) ==> (p@ == path_joined(dir@, binary_file_name(stem@, true))
            || p@ == path_joined(dir@, binary_file_name(stem@, false))),
{
    let candidate = join_path(dir, binary_name(stem).as_str());
    if path_is_file(candidate.as_str()) {
        Some(candidate)
    } else {
        None
    }
}

/// Directory where auto-downloaded tool binaries are stored: `tools` in the
/// app's data directory.
pub fn tools_dir() -> (r: Option<String>)
    ensures
        r matches Some(p) ==> exists|d: Seq<char>| p@ == #[trigger] path_joined(d, "tools"@),
{
    match project_data_dir() {
        Some(d) => Some(join_path(d.as_str(), "tools")),
        None => None,
    }
}

/// The candidates for `stem` in the directories `dirs`, in order: the
/// directory joined with the executable name for the platform.
pub open spec fn candidates(dirs: Seq<Seq<char>>, exe: Seq<char>) -> Seq<Seq<char>> {
    dirs.map_values(|d: Seq<char>| path_joined(d, exe))
}

/// The first of `cands` whose existence answer in `hits` is yes.
pub open spec fn first_hit(cands: Seq<Seq<char>>, hits: Seq<bool>) -> Option<Seq<char>>
    decreases cands.len(),
{
    if cands.len() == 0 || hits.len() == 0 {
        None
    } else if hits[0] {
        Some(cands[0])
    } else {
        first_hit(cands.drop_first(), hits.drop_first())
    }
}

/// The tool found: the copy in the app's tools directory when there is one
/// (`tools_hit`), else the first `PATH` candidate that exists.
pub open spec fn found_tool(tools_hit: Option<Seq<char>>, cands: Seq<Seq<char>>, hits: Seq<bool>) -> Option<Seq<char>> {
    match tools_hit {
        Some(t) => Some(t),
        None => first_hit(cands, hits),
    }
}

/// Which tool to use, from the existence answers: the tools-directory copy
/// when it exists (`tools_hit`), else the first of `candidates` whose answer
/// in `is_file` is yes, else none.
pub fn first_found(tools_hit: Option<String>, candidates: &Vec<String>, is_file: &Vec<bool>) -> (r: Option<String>)
    requires
        candidates.len() == is_file.len(),
    ensures
        opt_view(r) == found_tool(opt_view(tools_hit), views(candidates@), is_file@),
{
    match tools_hit {
        Some(t) => {
            return Some(t);
        },
        None => {},
    }
    let ghost cs = views(candidates@);
    let mut i: usize = 0;
    assert(cs.skip(0) == cs);
    assert(is_file@.skip(0) == is_file@);
    while i < candidates.len()
        invariant
            i <= candidates.len() == is_file.len(),
            cs == views(candidates@),
            opt_view(tools_hit) is None,
            first_hit(cs, is_file@) == first_hit(cs.skip(i as int), is_file@.skip(i as int)),
        decreases candidates.len() - i,
    {
        let ghost c = cs.skip(i as int);
        let ghost h = is_file@.skip(i as int);
        proof {
            assert(c[0] == candidates@[i as int]@);
            assert(h[0] == is_file@[i as int]);
            assert(c.drop_first() == cs.skip(i + 1));
            assert(h.drop_first() == is_file@.skip(i + 1));
        }
        if is_file[i] {
            return Some(candidates[i].clone());
        }
        i += 1;
    }
    None
}

/// The candidates for `stem` in `dirs` (each directory joined with the
/// executable name `name`), and whether each exists now.
fn candidates_and_answers(dirs: &Vec<String>, name: &str) -> (r: (Vec<String>, Vec<bool>))
    ensures
        views(r.0@) == candidates(views(dirs@), name@),
        r.0.len() == dirs.len(),
        r.1.len() == dirs.len(),
{
    let mut cands: Vec<String> = Vec::new();
    let mut hits: Vec<bool> = Vec::new();
    let mut i: usize = 0;
    while i < dirs.len()
        invariant
            i <= dirs.len(),
            hits.len() == i,
            cands.len() == i,
            views(cands@) == candidates(views(dirs@), name@).take(i as int),
        decreases dirs.len() - i,
    {
        let c = join_path(dirs[i].as_str(), name);
        hits.push(path_is_file(c.as_str()));
        proof {
            assert(views(cands@.push(c)) == views(cands@).push(c@));
            assert(candidates(views(dirs@), name@).take(i + 1) == candidates(views(dirs@), name@).take(i as int).push(c@));
        }
        cands.push(c);
        i += 1;
    }
    assert(candidates(views(dirs@), name@).take(dirs.len() as int) == candidates(views(dirs@), name@));
    (cands, hits)
}

/// The first of `dirs` that holds a file `stem` (with `.exe` on Windows).
/// Whether a file exists depends on the file system: what is claimed is that
/// the answer is the first candidate, in the order of `dirs`, for some
/// existence answers.
pub fn which_in_dirs(dirs: &Vec<String>, stem: &str) -> (r: Option<String>)
    ensures
        exists|exe: Seq<char>, hits: Seq<bool>| {
            &&& (exe == binary_file_name(stem@, true) || exe == binary_file_name(stem@, false))
            &&& hits.len() == dirs.len()
            &&& opt_view(r) == #[trigger] first_hit(candidates(views(dirs@), exe), hits)
        },
{
    let name = binary_name(stem);
    let (cands, hits) = candidates_and_answers(dirs, name.as_str());
    let r = first_found(None, &cands, &hits);
    assert(opt_view(r) == first_hit(candidates(views(dirs@), name@), hits@));
    r
}

/// Locate `stem` (e.g. "yt-dlp"): prefer the app tools dir, then the
/// directories of `PATH` (`path_dirs`, in order). `None` if not found
/// anywhere. Whether a file exists depends on the file system: what is
/// claimed is that the answer is `found_tool` of the candidates for some
/// existence answers.
pub fn find_existing(stem: &str, path_dirs: &Vec<String>) -> (r: Option<String>)
    ensures
        exists|tools: Option<Seq<char>>, exe: Seq<char>, hits: Seq<bool>| {
            &&& (exe == binary_file_name(stem@, true) || exe == binary_file_name(stem@, false))
            &&& (tools matches Some(t) ==> exists|d: Seq<char>| t == #[trigger] path_joined(path_joined(d, "tools"@), exe))
            &&& hits.len() == path_dirs.len()
            &&& opt_view(r) == #[trigger] found_tool(tools, candidates(views(path_dirs@), exe), hits)
        },
{
    let name = binary_name(stem);
    let tools_hit = match project_data_dir() {
        Some(d) => {
            let dir = join_path(d.as_str(), "tools");
            let c = join_path(dir.as_str(), name.as_str());
            if path_is_file(c.as_str()) {
                Some(c)
            } else {
                None
            }
        },
        None => None,
    };
    let ghost tv = opt_view(tools_hit);
    let (cands, hits) = match tools_hit {
        Some(_) => (Vec::new(), Vec::new()),
        None => candidates_and_answers(path_dirs, name.as_str()),
    };
    let r = first_found(tools_hit, &cands, &hits);
    proof {
        let all = candidates(views(path_dirs@), name@);
        if tv is Some {
            let w = Seq::new(path_dirs.len() as nat, |k: int| false);
            assert(found_tool(tv, all, w) == tv);
        } else {
            assert(found_tool(tv, all, hits@) == first_hit(all, hits@));
        }
    }
    r
}

/// What std's `Path::starts_with` says of `path` and `base`: whether `base`
/// is a leading run of `path`'s components.
pub uninterp spec fn path_under(path: Seq<char>, base: Seq<char>) -> bool;

/// std `Path::starts_with`. Claimed: the answer depends only on the two
/// path texts.
#[verifier::external_body]
fn path_starts_with(path: &str, base: &str) -> (r: bool)
    ensures
        r == path_under(path@, base@),
{
    std::path::Path::new(path).starts_with(base)
}

/// Whether yt-dlp at `ytdlp` is the copy the application manages (inside its
/// tools dir); only that copy is ever self-updated, never a system/PATH
/// install. `false` when the tools dir is unknown.
pub fn is_managed_tool(ytdlp: &str) -> (r: bool)
    ensures
        r ==> exists|d: Seq<char>| path_under(ytdlp@, #[trigger] path_joined(d, "tools"@)),
{
    match tools_dir() {
        Some(dir) => path_starts_with(ytdlp, dir.as_str()),
        None => false,
    }
}

/// Path to the timestamp file recording the last yt-dlp self-update attempt:
/// `.yt-dlp-last-update` in the tools dir.
pub fn ytdlp_update_stamp() -> (r: Option<String>)
    ensures
        r matches Some(p) ==> exists|d: Seq<char>| p@ == #[trigger] path_joined(path_joined(d, "tools"@), ".yt-dlp-last-update"@),
{
    match project_data_dir() {
        Some(d) => {
            let dir = join_path(d.as_str(), "tools");
            Some(join_path(dir.as_str(), ".yt-dlp-last-update"))
        },
        None => None,
    }
}

/// The time of the last self-update attempt recorded in the stamp file's
/// text: its trimmed text read as a number of seconds, or 0 when the file
/// is missing or does not hold one.
pub open spec fn recorded_update_time(stamp: Option<Seq<char>>) -> u64 {
    match stamp {
        Some(t) => match parse_u64_spec(trim(t)) {
            Some(n) => n,
            None => 0,
        },
        None => 0,
    }
}

/// The time recorded in the stamp file's text (`None` when unreadable).
pub fn last_update_time(stamp: Option<&str>) -> (r: u64)
    ensures
        r == recorded_update_time(match stamp {
            Some(t) => Some(t@),
            None => None,
        }),
{
    match stamp {
        Some(t) => {
            let v = trimmed_chars(t);
            match parse_u64(v.as_slice()) {
                Some(n) => n,
                None => 0,
            }
        },
        None => 0,
    }
}

/// True if the last self-update (per the stamp file's text) was more than
/// 24h before `now` (or never).
pub fn should_self_update(now: u64, stamp: Option<&str>) -> (r: bool)
    ensures
        r == self_update_is_due(
            now,
            recorded_update_time(match stamp {
                Some(t) => Some(t@),
                None => None,
            }),
        ),
{
    let last = last_update_time(stamp);
    self_update_due(now, last)
}

/// The release URL of yt-dlp's latest build for a platform.
pub open spec fn ytdlp_url(p: Platform) -> Seq<char> {
    "https://github.com/yt-dlp/yt-dlp/releases/latest/download/"@ + ytdlp_asset(p)
}

/// The release URL of yt-dlp's latest build for a platform.
pub fn ytdlp_release_url(p: Platform) -> (r: String)
    ensures
        r@ == ytdlp_url(p),
{
    let mut s = String::from_str("https://github.com/yt-dlp/yt-dlp/releases/latest/download/");
    push_str(&mut s, ytdlp_asset_name(p));
    s
}

/// The zip entry holding the ffmpeg binary named `target`, whether at the
/// archive root (macOS) or nested, such as under bin/ (Windows builds).
pub open spec fn is_ffmpeg_zip_entry(name: Seq<char>, target: Seq<char>) -> bool {
    name == target || has_suffix(name, seq!['/'] + target)
}

/// Whether the zip entry `name` is the ffmpeg binary `target`.
pub fn ffmpeg_zip_entry(name: &str, target: &str) -> (r: bool)
    ensures
        r == is_ffmpeg_zip_entry(name@, target@),
{
    if str_eq(name, target) {
        return true;
    }
    let n = chars_of(name);
    let mut suffix: Vec<char> = vec!['/'];
    let t = chars_of(target);
    let mut i: usize = 0;
    while i < t.len()
        invariant
            i <= t.len(),
            suffix@ == seq!['/'] + t@.take(i as int),
        decreases t.len() - i,
    {
        suffix.push(t[i]);
        assert(t@.take(i + 1) == t@.take(i as int).push(t@[i as int]));
        i += 1;
    }
    assert(t@.take(t.len() as int) == t@);
    ends_with(n.as_slice(), suffix.as_slice())
}

/// The tar entry at `path` is the ffmpeg binary: named "ffmpeg", under a
/// "/bin/" directory.
pub open spec fn is_ffmpeg_tar_entry(path: Seq<char>) -> bool {
    path_file_name(path) == Some("ffmpeg"@) && has_infix(path, "/bin/"@)
}

/// Whether the tar entry at `path` is the ffmpeg binary.
pub fn ffmpeg_tar_entry(path: &str) -> (r: bool)
    ensures
        r == is_ffmpeg_tar_entry(path@),
{
    let named = match file_name_of(path) {
        Some(n) => str_eq(n.as_str(), "ffmpeg"),
        None => false,
    };
    let p = chars_of(path);
    let bin = vec!['/', 'b', 'i', 'n', '/'];
    proof {
        reveal_strlit("ffmpeg");
        reveal_strlit("/bin/");
    }
    assert(bin@ == "/bin/"@);
    named && contains(p.as_slice(), bin.as_slice())
}

/// GitHub release asset name for yt-dlp on a platform.
pub open spec fn ytdlp_asset(p: Platform) -> Seq<char> {
    match p {
        Platform::Windows => "yt-dlp.exe"@,
        Platform::MacOs => "yt-dlp_macos"@,
        Platform::Other => "yt-dlp"@,
    }
}

/// GitHub release asset name for yt-dlp on a platform.
pub fn ytdlp_asset_name(p: Platform) -> (r: &'static str)
    ensures
        r@ == ytdlp_asset(p),
{
    match p {
        Platform::Windows => "yt-dlp.exe",
        Platform::MacOs => "yt-dlp_macos",
        // linux x86_64; the universal binary
        Platform::Other => "yt-dlp",
    }
}

/// Download URL for a static ffmpeg build on a platform.
pub open spec fn ffmpeg_url(p: Platform) -> Seq<char> {
    match p {
        Platform::Windows => "https://github.com/yt-dlp/FFmpeg-Builds/releases/latest/download/ffmpeg-master-latest-win64-gpl.zip"@,
        Platform::MacOs => "https://evermeet.cx/ffmpeg/getrelease/zip"@,
        Platform::Other => "https://github.com/yt-dlp/FFmpeg-Builds/releases/latest/download/ffmpeg-master-latest-linux64-gpl.tar.xz"@,
    }
}

/// Download URL for a static ffmpeg build for a platform.
pub fn ffmpeg_archive_url(p: Platform) -> (r: &'static str)
    ensures
        r@ == ffmpeg_url(p),
{
    match p {
        Platform::Windows => "https://github.com/yt-dlp/FFmpeg-Builds/releases/latest/download/ffmpeg-master-latest-win64-gpl.zip",
        // evermeet.cx is a third-party ffmpeg builder (yt-dlp's FFmpeg-Builds
        // has no macOS asset). HTTPS-only; no checksum verification.
        Platform::MacOs => "https://evermeet.cx/ffmpeg/getrelease/zip",
        Platform::Other => "https://github.com/yt-dlp/FFmpeg-Builds/releases/latest/download/ffmpeg-master-latest-linux64-gpl.tar.xz",
    }
}

/// Whether the ffmpeg archive for a platform is a `.tar.xz` (else a zip).
pub fn ffmpeg_archive_is_tar_xz(p: Platform) -> (r: bool)
    ensures
        r == (p == Platform::Other),
{
    match p {
        Platform::Other => true,
        _ => false,
    }
}

// ---------------------------------------------------------------------------
// The yt-dlp invocation
// ---------------------------------------------------------------------------

/// yt-dlp format selection: capped at 1080p (4K streams are huge and far
/// more likely to need a PO token and 403). With ffmpeg, merged best video
/// and audio first; without it, the best pre-merged single file.
pub open spec fn format_for(have_ffmpeg: bool) -> Seq<char> {
    if have_ffmpeg {
        "bv*[height<=1080]+ba/b[height<=1080]/bv*+ba/b"@
    } else {
        "b[height<=1080]/b"@
    }
}

/// yt-dlp format selection.
pub fn download_format(have_ffmpeg: bool) -> (r: &'static str)
    ensures
        r@ == format_for(have_ffmpeg),
{
    if have_ffmpeg {
        "bv*[height<=1080]+ba/b[height<=1080]/bv*+ba/b"
    } else {
        "b[height<=1080]/b"
    }
}

/// The arguments yt-dlp is run with for `url`, saving to `output_template`,
/// with ffmpeg at `ffmpeg` when there is one.
pub open spec fn ytdlp_arguments(url: Seq<char>, output_template: Seq<char>, ffmpeg: Option<Seq<char>>) -> Seq<Seq<char>> {
    let base = seq![
        "--no-playlist"@,
        "--newline"@,
        "--extractor-args"@,
        "youtube:player_client=default"@,
        "--retries"@,
        "10"@,
        "--fragment-retries"@,
        "10"@,
        "-f"@,
        format_for(ffmpeg is Some),
        "--progress-template"@,
        PROGRESS_TEMPLATE@,
        "-o"@,
        output_template,
        url,
    ];
    match ffmpeg {
        Some(f) => base + seq!["--ffmpeg-location"@, f, "--merge-output-format"@, "mp4"@],
        None => base,
    }
}

/// The yt-dlp command line for one download. YouTube now needs a JS runtime
/// for the default web player's signature; without one yt-dlp falls back to
/// a client whose media URLs frequently return HTTP 403, so the `default`
/// client set is forced. Retries make it resilient to throttling.
pub fn ytdlp_args(url: &str, output_template: &str, ffmpeg: Option<&str>) -> (r: Vec<String>)
    ensures
        views(r@) == ytdlp_arguments(
            url@,
            output_template@,
            match ffmpeg {
                Some(f) => Some(f@),
                None => None,
            },
        ),
{
    let mut v: Vec<String> = Vec::new();
    v.push(String::from_str("--no-playlist"));
    v.push(String::from_str("--newline"));
    v.push(String::from_str("--extractor-args"));
    v.push(String::from_str("youtube:player_client=default"));
    v.push(String::from_str("--retries"));
    v.push(String::from_str("10"));
    v.push(String::from_str("--fragment-retries"));
    v.push(String::from_str("10"));
    v.push(String::from_str("-f"));
    v.push(String::from_str(download_format(ffmpeg.is_some())));
    v.push(String::from_str("--progress-template"));
    v.push(String::from_str(PROGRESS_TEMPLATE));
    v.push(String::from_str("-o"));
    v.push(String::from_str(output_template));
    v.push(String::from_str(url));
    match ffmpeg {
        Some(f) => {
            v.push(String::from_str("--ffmpeg-location"));
            v.push(String::from_str(f));
            v.push(String::from_str("--merge-output-format"));
            v.push(String::from_str("mp4"));
        },
        None => {},
    }
    assert(views(v@) =~= ytdlp_arguments(
        url@,
        output_template@,
        match ffmpeg {
            Some(f) => Some(f@),
            None => None,
        },
    ));
    v
}

// ---------------------------------------------------------------------------
// The download session
// ---------------------------------------------------------------------------

/// What the download worker remembers between output lines.
#[derive(Debug, Clone, Copy, PartialEq, Eq, Structural)]
pub struct DownloadSession {
    /// Whether the video title has been announced.
    pub sent_title: bool,
}

impl DownloadSession {
    pub fn new() -> (r: Self)
        ensures
            !r.sent_title,
    {
        DownloadSession { sent_title: false }
    }

    /// A progress line arrived with `title`: returns whether to announce the
    /// title now. The title rides on every progress line; it is announced
    /// once, the first time a non-empty one is seen.
    pub fn title_to_announce(&mut self, title: &str) -> (r: bool)
        ensures
            r == (!old(self).sent_title && title@.len() > 0),
            final(self).sent_title == (old(self).sent_title || title@.len() > 0),
    {
        if !self.sent_title && !title.is_empty() {
            self.sent_title = true;
            true
        } else {
            false
        }
    }
}

/// The title is announced at most once per download: after it has been
/// announced, no later line announces it again.
pub proof fn title_announced_once(sent: bool, title: Seq<char>, later: Seq<char>)
    ensures
        ({
            let announced = !sent && title.len() > 0;
            let sent_after = sent || title.len() > 0;
            announced ==> !(!sent_after && later.len() > 0)
        }),
{
}

/// What happens to the download worker, in the order it happens.
#[derive(Debug, Clone, PartialEq, Eq)]
pub enum WorkerInput {
    /// The worker starts (it now locates or fetches yt-dlp and ffmpeg).
    Begin,
    /// Setting up failed before yt-dlp ran, with a human-readable reason.
    SetupFailed(String),
    /// yt-dlp printed a progress line whose title field is the given text.
    ProgressLine(String),
    /// yt-dlp ended; on failure, with a human-readable reason.
    Exited { success: bool, message: String },
}

/// What the worker reports to the window (the progress figures themselves
/// travel beside `Progress`).
#[derive(Debug, Clone, PartialEq, Eq)]
pub enum WorkerSignal {
    Resolving,
    Title(String),
    Progress,
    Done,
    Failed(String),
}

/// Where a download is.
#[derive(Debug, Clone, Copy, PartialEq, Eq, Structural)]
pub enum RunPhase {
    NotStarted,
    Running,
    Finished,
}

/// The download worker's protocol state.
#[derive(Debug, Clone, Copy, PartialEq, Eq, Structural)]
pub struct DownloadRun {
    pub phase: RunPhase,
    pub session: DownloadSession,
}

/// One step of the protocol: the phase and title flag after `input`, and
/// what is reported. A download reports `Resolving` when it starts, the
/// title the first time a progress line carries a non-empty one, each
/// progress line, and ends with exactly one `Done` or `Failed`; anything
/// out of turn reports nothing and changes nothing.
pub open spec fn protocol_step(phase: RunPhase, sent: bool, input: WorkerInput) -> (RunPhase, bool, Seq<WorkerSignal>) {
    match phase {
        RunPhase::NotStarted => match input {
            WorkerInput::Begin => (RunPhase::Running, false, seq![WorkerSignal::Resolving]),
            _ => (phase, sent, seq![]),
        },
        RunPhase::Running => match input {
            WorkerInput::Begin => (phase, sent, seq![]),
            WorkerInput::SetupFailed(m) => (RunPhase::Finished, sent, seq![WorkerSignal::Failed(m)]),
            WorkerInput::ProgressLine(t) => if !sent && t@.len() > 0 {
                (phase, true, seq![WorkerSignal::Title(t), WorkerSignal::Progress])
            } else {
                (phase, sent, seq![WorkerSignal::Progress])
            },
            WorkerInput::Exited { success, message } => if success {
                (RunPhase::Finished, sent, seq![WorkerSignal::Done])
            } else {
                (RunPhase::Finished, sent, seq![WorkerSignal::Failed(message)])
            },
        },
        RunPhase::Finished => (phase, sent, seq![]),
    }
}

/// The state and everything reported after the inputs `inputs`, from a
/// download not yet started.
pub open spec fn protocol_run(inputs: Seq<WorkerInput>) -> (RunPhase, bool, Seq<WorkerSignal>)
    decreases inputs.len(),
{
    if inputs.len() == 0 {
        (RunPhase::NotStarted, false, seq![])
    } else {
        let (phase, sent, out) = protocol_run(inputs.drop_last());
        let (p2, s2, more) = protocol_step(phase, sent, inputs.last());
        (p2, s2, out + more)
    }
}

impl DownloadRun {
    /// A download not yet started.
    pub fn new() -> (r: Self)
        ensures
            r.phase == RunPhase::NotStarted,
            !r.session.sent_title,
    {
        DownloadRun { phase: RunPhase::NotStarted, session: DownloadSession::new() }
    }

    /// Take one input; returns what to report, in order.
    pub fn step(&mut self, input: WorkerInput) -> (r: Vec<WorkerSignal>)
        ensures
            (final(self).phase, final(self).session.sent_title, r@) == protocol_step(old(self).phase, old(self).session.sent_title, input),
    {
        let mut out: Vec<WorkerSignal> = Vec::new();
        match self.phase {
            RunPhase::NotStarted => match input {
                WorkerInput::Begin => {
                    self.phase = RunPhase::Running;
                    self.session = DownloadSession::new();
                    out.push(WorkerSignal::Resolving);
                },
                _ => {},
            },
            RunPhase::Running => match input {
                WorkerInput::Begin => {},
                WorkerInput::SetupFailed(m) => {
                    self.phase = RunPhase::Finished;
                    out.push(WorkerSignal::Failed(m));
                },
                WorkerInput::ProgressLine(t) => {
                    if self.session.title_to_announce(t.as_str()) {
                        out.push(WorkerSignal::Title(t));
                    }
                    out.push(WorkerSignal::Progress);
                },
                WorkerInput::Exited { success, message } => {
                    self.phase = RunPhase::Finished;
                    if success {
                        out.push(WorkerSignal::Done);
                    } else {
                        out.push(WorkerSignal::Failed(message));
                    }
                },
            },
            RunPhase::Finished => {},
        }
        assert(out@ == protocol_step(old(self).phase, old(self).session.sent_title, input).2);
        out
    }
}

/// How many of `sig` are `Resolving`.
pub open spec fn resolving_count(sig: Seq<WorkerSignal>) -> nat
    decreases sig.len(),
{
    if sig.len() == 0 {
        0
    } else {
        resolving_count(sig.drop_last()) + if sig.last() is Resolving { 1nat } else { 0nat }
    }
}

/// How many of `sig` are titles.
pub open spec fn title_count(sig: Seq<WorkerSignal>) -> nat
    decreases sig.len(),
{
    if sig.len() == 0 {
        0
    } else {
        title_count(sig.drop_last()) + if sig.last() is Title { 1nat } else { 0nat }
    }
}

/// Whether a report ends the download.
pub open spec fn is_terminal(s: WorkerSignal) -> bool {
    s is Done || s is Failed
}

/// How many of `sig` end the download.
pub open spec fn terminal_count(sig: Seq<WorkerSignal>) -> nat
    decreases sig.len(),
{
    if sig.len() == 0 {
        0
    } else {
        terminal_count(sig.drop_last()) + if is_terminal(sig.last()) { 1nat } else { 0nat }
    }
}

proof fn lemma_counts_concat(a: Seq<WorkerSignal>, b: Seq<WorkerSignal>)
    ensures
        resolving_count(a + b) == resolving_count(a) + resolving_count(b),
        title_count(a + b) == title_count(a) + title_count(b),
        terminal_count(a + b) == terminal_count(a) + terminal_count(b),
    decreases b.len(),
{
    if b.len() == 0 {
        assert(a + b == a);
    } else {
        lemma_counts_concat(a, b.drop_last());
        assert((a + b).drop_last() == a + b.drop_last());
        assert((a + b).last() == b.last());
    }
}

/// The protocol state after `inputs` is consistent with what was reported.
pub open spec fn protocol_inv(phase: RunPhase, sent: bool, sig: Seq<WorkerSignal>) -> bool {
    &&& (phase == RunPhase::NotStarted <==> sig.len() == 0)
    &&& (phase == RunPhase::NotStarted ==> !sent)
    &&& sig.len() > 0 ==> sig[0] is Resolving
    &&& resolving_count(sig) == (if sig.len() > 0 { 1nat } else { 0nat })
    &&& title_count(sig) == (if sent { 1nat } else { 0nat })
    &&& terminal_count(sig) == (if phase == RunPhase::Finished { 1nat } else { 0nat })
    &&& phase == RunPhase::Finished ==> is_terminal(sig.last())
}

proof fn lemma_protocol_inv(inputs: Seq<WorkerInput>)
    ensures
        protocol_inv(protocol_run(inputs).0, protocol_run(inputs).1, protocol_run(inputs).2),
    decreases inputs.len(),
{
    if inputs.len() > 0 {
        lemma_protocol_inv(inputs.drop_last());
        let (phase, sent, out) = protocol_run(inputs.drop_last());
        let (p2, s2, more) = protocol_step(phase, sent, inputs.last());
        lemma_counts_concat(out, more);
        lemma_counts_small(more);
        if more.len() > 0 {
            assert((out + more).last() == more.last());
            if out.len() > 0 {
                assert((out + more)[0] == out[0]);
            } else {
                assert(out + more == more);
            }
        } else {
            assert(out + more == out);
        }
    }
}

proof fn lemma_counts_small(more: Seq<WorkerSignal>)
    requires
        more.len() <= 2,
    ensures
        resolving_count(more) == (if more.len() > 0 && more[0] is Resolving { 1nat } else { 0nat })
            + (if more.len() > 1 && more[1] is Resolving { 1nat } else { 0nat }),
        title_count(more) == (if more.len() > 0 && more[0] is Title { 1nat } else { 0nat })
            + (if more.len() > 1 && more[1] is Title { 1nat } else { 0nat }),
        terminal_count(more) == (if more.len() > 0 && is_terminal(more[0]) { 1nat } else { 0nat })
            + (if more.len() > 1 && is_terminal(more[1]) { 1nat } else { 0nat }),
{
    reveal_with_fuel(resolving_count, 3);
    reveal_with_fuel(title_count, 3);
    reveal_with_fuel(terminal_count, 3);
    if more.len() == 1 {
        assert(more.drop_last() == Seq::<WorkerSignal>::empty());
        assert(more.last() == more[0]);
    } else if more.len() == 2 {
        let d = more.drop_last();
        assert(d.drop_last() == Seq::<WorkerSignal>::empty());
        assert(d.last() == more[0]);
        assert(more.last() == more[1]);
    }
}

proof fn lemma_after_finish(inputs: Seq<WorkerInput>, later: Seq<WorkerInput>)
    requires
        protocol_run(inputs).0 == RunPhase::Finished,
    ensures
        protocol_run(inputs + later) == protocol_run(inputs),
    decreases later.len(),
{
    if later.len() > 0 {
        lemma_after_finish(inputs, later.drop_last());
        assert((inputs + later).drop_last() == inputs + later.drop_last());
        assert((inputs + later).last() == later.last());
        let (phase, sent, out) = protocol_run(inputs);
        assert(out + Seq::<WorkerSignal>::empty() == out);
    } else {
        assert(inputs + later == inputs);
    }
}

/// The download protocol: whatever happens, the worker reports `Resolving`
/// first and only once, the title at most once, and at most one `Done` or
/// `Failed`, which is the last thing it reports.
pub proof fn download_protocol(inputs: Seq<WorkerInput>, later: Seq<WorkerInput>)
    ensures
        ({
            let sig = protocol_run(inputs).2;
            &&& sig.len() > 0 ==> sig[0] is Resolving
            &&& resolving_count(sig) <= 1
            &&& title_count(sig) <= 1
            &&& terminal_count(sig) <= 1
            &&& terminal_count(sig) == 1 ==> is_terminal(sig.last())
                && protocol_run(inputs + later).2 == sig
        }),
{
    lemma_protocol_inv(inputs);
    if terminal_count(protocol_run(inputs).2) == 1 {
        lemma_after_finish(inputs, later);
    }
}

/// A line without one trailing '\r'.
pub open spec fn drop_cr(line: Seq<char>) -> Seq<char> {
    if line.len() > 0 && line.last() == '\r' {
        line.drop_last()
    } else {
        line
    }
}

/// The lines of a text, as std's `str::lines` splits them: at each '\n',
/// with a '\r' just before it dropped, and no line after a final '\n'.
pub open spec fn text_lines(s: Seq<char>) -> Seq<Seq<char>>
    decreases s.len(),
{
    if s.len() == 0 {
        seq![]
    } else {
        match char_split(s, '\n') {
            Some((a, rest)) => {
                proof {
                    lemma_char_split_shorter(s, '\n');
                }
                seq![drop_cr(a)] + text_lines(rest)
            },
            None => seq![s],
        }
    }
}

/// "ERROR"
pub open spec fn error_marker() -> Seq<char> {
    seq!['E', 'R', 'R', 'O', 'R']
}

/// The last of `lines` that contains "ERROR", if any.
pub open spec fn last_error_line(lines: Seq<Seq<char>>) -> Option<Seq<char>>
    decreases lines.len(),
{
    if lines.len() == 0 {
        None
    } else if has_infix(lines.last(), error_marker()) {
        Some(lines.last())
    } else {
        last_error_line(lines.drop_last())
    }
}

/// What a failed yt-dlp run reports: the last line of its error output that
/// contains "ERROR", else that it exited with the given status.
pub open spec fn failure_report(stderr: Seq<char>, status: Seq<char>) -> Seq<char> {
    match last_error_line(text_lines(stderr)) {
        Some(l) => l,
        None => "yt-dlp exited with "@ + status,
    }
}

/// The lines of `s` (std `str::lines`).
pub fn split_lines(s: &str) -> (r: Vec<String>)
    ensures
        views(r@) == text_lines(s@),
{
    let v = chars_of(s);
    let mut lines: Vec<String> = Vec::new();
    let mut start: usize = 0;
    assert(v@.skip(0) == v@);
    while start < v.len()
        invariant
            start <= v.len(),
            v@ == s@,
            text_lines(s@) == views(lines@) + text_lines(v@.skip(start as int)),
        decreases v.len() - start,
    {
        let ghost rest = v@.skip(start as int);
        let mut i = start;
        while i < v.len() && v[i] != '\n'
            invariant
                start <= i <= v.len(),
                forall|j: int| start <= j < i ==> v@[j] != '\n',
            decreases v.len() - i,
        {
            i += 1;
        }
        if i < v.len() {
            proof {
                assert forall|j: int| 0 <= j < i - start implies rest[j] != '\n' by {
                    assert(rest[j] == v@[j + start]);
                }
                lemma_char_split_at(rest, '\n', i - start);
                assert(rest.take(i - start) == v@.subrange(start as int, i as int));
                assert(rest.skip(i - start + 1) == v@.skip(i + 1));
            }
            let end = if i > start && v[i - 1] == '\r' { i - 1 } else { i };
            let line = string_of_range(v.as_slice(), start, end);
            proof {
                assert(line@ == drop_cr(v@.subrange(start as int, i as int)));
                assert(views(lines@.push(line)) == views(lines@).push(line@));
                assert(views(lines@).push(line@) + text_lines(v@.skip(i + 1)) == views(lines@) + (seq![line@] + text_lines(v@.skip(i + 1))));
            }
            lines.push(line);
            start = i + 1;
        } else {
            proof {
                assert forall|j: int| 0 <= j < rest.len() implies rest[j] != '\n' by {
                    assert(rest[j] == v@[j + start]);
                }
                lemma_char_split_none(rest, '\n');
                assert(rest == v@.subrange(start as int, v@.len() as int));
            }
            let line = string_of_range(v.as_slice(), start, v.len());
            proof {
                assert(views(lines@.push(line)) == views(lines@).push(line@));
                assert(v@.skip(v.len() as int) == Seq::<char>::empty());
                assert(views(lines@).push(line@) == views(lines@) + seq![line@]);
            }
            lines.push(line);
            start = v.len();
        }
    }
    assert(text_lines(v@.skip(start as int)) == Seq::<Seq<char>>::empty());
    lines
}

/// The message for a failed yt-dlp run, from its error output and exit
/// status text.
pub fn failure_message(stderr: &str, status: &str) -> (r: String)
    ensures
        r@ == failure_report(stderr@, status@),
{
    let lines = split_lines(stderr);
    let marker = vec!['E', 'R', 'R', 'O', 'R'];
    assert(marker@ == error_marker());
    let ghost ls = views(lines@);
    let mut k = lines.len();
    assert(ls.take(k as int) == ls);
    while k > 0
        invariant
            k <= lines.len(),
            ls == views(lines@),
            ls == text_lines(stderr@),
            marker@ == error_marker(),
            last_error_line(ls) == last_error_line(ls.take(k as int)),
        decreases k,
    {
        let lv = chars_of(lines[k - 1].as_str());
        let ghost tk = ls.take(k as int);
        proof {
            assert(tk.len() == k);
            assert(tk.last() == lines@[k - 1]@);
            assert(tk.drop_last() == ls.take(k - 1));
        }
        if contains(lv.as_slice(), marker.as_slice()) {
            let found = lines[k - 1].clone();
            assert(last_error_line(tk) == Some(found@));
            return found;
        }
        assert(last_error_line(tk) == last_error_line(ls.take(k - 1)));
        k -= 1;
    }
    let mut s = String::from_str("yt-dlp exited with ");
    push_str(&mut s, status);
    s
}

/// Whether yt-dlp's own self-update is due: more than a day since the last
/// attempt (`now` and `last` in seconds since the epoch; a clock that went
/// back counts as no time passed).
pub open spec fn self_update_is_due(now: u64, last: u64) -> bool {
    now > last && now - last > 24 * 3600
}

/// Whether yt-dlp's own self-update is due (see `self_update_is_due`).
pub fn self_update_due(now: u64, last: u64) -> (r: bool)
    ensures
        r == self_update_is_due(now, last),
{
    let elapsed = if now > last { now - last } else { 0 };
    elapsed > 24 * 3600
}

} // verus!
