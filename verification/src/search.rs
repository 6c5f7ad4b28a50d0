//! In-memory fuzzy search over hymn entries.
//!
//! The fuzzy scoring itself is nucleo's; this module decides which fields are
//! scored, how the raw scores are weighted, which field wins for an entry, and
//! in what order the hits come out.

use vstd::prelude::*;
use crate::library::path_file_stem;
use crate::fold::{fold, fold_seq};
use crate::model::{HymnEntry, MatchField, SearchHit};
use crate::text::{
    all_digits, chars_of, contains, has_infix, has_prefix, is_ascii_digit, is_blank, parse_u32,
    parse_u32_spec, starts_with, all_whitespace,
};
use nucleo_matcher::pattern::{CaseMatching, Normalization, Pattern};
use nucleo_matcher::{Config, Matcher, Utf32Str};

verus! {

// ---------------------------------------------------------------------------
// Outside items: nucleo's matcher and pattern, std's `Path::file_stem`
// ---------------------------------------------------------------------------

#[verifier::external_type_specification]
#[verifier::external_body]
pub struct ExMatcher(Matcher);

#[verifier::external_type_specification]
#[verifier::external_body]
pub struct ExPattern(Pattern);

/// The score nucleo gives `haystack` for the query text `query` (parsed with
/// case-insensitive matching and smart normalization), or `None` when the
/// pattern does not match.
pub uninterp spec fn fuzzy_score(query: Seq<char>, haystack: Seq<char>) -> Option<u32>;


/// A parsed nucleo pattern together with the text it was parsed from.
pub struct FuzzyQuery {
    text: String,
    pattern: Pattern,
}

/// nucleo `Pattern::parse(q, CaseMatching::Ignore, Normalization::Smart)`.
/// Claimed: nothing beyond remembering `q` beside the parsed pattern.
#[verifier::external_body]
fn fuzzy_query(q: &str) -> (r: FuzzyQuery)
    ensures
        r.text@ == q@,
{
    FuzzyQuery { text: q.to_string(), pattern: Pattern::parse(q, CaseMatching::Ignore, Normalization::Smart) }
}

/// nucleo `Matcher::new(Config::DEFAULT)`: scratch space for scoring.
#[verifier::external_body]
fn new_matcher() -> Matcher {
    Matcher::new(Config::DEFAULT)
}

/// nucleo `Pattern::score` of `haystack`. Claimed: the result depends only on
/// the pattern's text and the haystack (the matcher holds the fixed default
/// configuration and scratch buffers). nucleo panics on haystacks longer than
/// `u32::MAX` characters, so those are left out.
#[verifier::external_body]
fn score_fuzzy(query: &FuzzyQuery, matcher: &mut Matcher, haystack: &str) -> (r: Option<u32>)
    requires
        haystack@.len() <= u32::MAX,
    ensures
        r == fuzzy_score(query.text@, haystack@),
{
    let mut buf = Vec::new();
    query.pattern.score(Utf32Str::new(haystack, &mut buf), matcher)
}

/// std `Path::file_stem`, as text. Claimed: it is the file name (as
/// `Path::file_name` gives it) without its extension, as std documents
/// (see `path_file_stem`).
#[verifier::external_body]
pub(crate) fn file_stem_of(path: &str) -> (r: Option<String>)
    ensures
        match r {
            Some(s) => path_file_stem(path@) == Some(s@),
            None => path_file_stem(path@) is None,
        },
{
    std::path::Path::new(path).file_stem().map(|s| s.to_string_lossy().into_owned())
}

// ---------------------------------------------------------------------------
// What is searched, and how a field is scored
// ---------------------------------------------------------------------------

/// The number text of an entry (empty when it has none).
pub open spec fn number_text(e: HymnEntry) -> Seq<char> {
    match e.number {
        Some(n) => n@,
        None => seq![],
    }
}

/// The file stem of an entry's path (empty when it has none).
pub open spec fn filename_text(e: HymnEntry) -> Seq<char> {
    match path_file_stem(e.path@) {
        Some(s) => s,
        None => seq![],
    }
}

/// The searchable text of one field of an entry: the number as is, the
/// other fields folded.
pub open spec fn field_text(e: HymnEntry, f: MatchField) -> Seq<char> {
    match f {
        MatchField::Number => number_text(e),
        MatchField::Title => fold_seq(e.title@),
        MatchField::Filename => fold_seq(filename_text(e)),
        MatchField::Body => fold_seq(e.body@),
    }
}

/// Field weight that nudges ties toward more authoritative fields.
pub open spec fn field_weight(f: MatchField) -> int {
    match f {
        MatchField::Number => 4,
        MatchField::Title => 3,
        MatchField::Filename => 2,
        MatchField::Body => 1,
    }
}

/// Bonus so exact and prefix matches dominate fuzzy ones: a field equal to
/// the query outranks one that starts with it, which outranks one containing it.
pub open spec fn bonus(hay: Seq<char>, q: Seq<char>) -> int {
    if hay == q {
        20_000
    } else if has_prefix(hay, q) {
        10_000
    } else if has_infix(hay, q) {
        5_000
    } else {
        0
    }
}

/// `x`, capped at `u32::MAX`.
pub open spec fn saturate(x: int) -> u32 {
    if x > u32::MAX {
        u32::MAX
    } else {
        x as u32
    }
}

/// The weighted score of one field for the folded query `q`, or `None` when
/// the field is empty or nucleo does not match it. Fields longer than
/// `u32::MAX` characters, which nucleo cannot score, count as not matching.
pub open spec fn field_score(e: HymnEntry, q: Seq<char>, f: MatchField) -> Option<u32> {
    let hay = field_text(e, f);
    if hay.len() == 0 || hay.len() > u32::MAX {
        None
    } else {
        match fuzzy_score(q, hay) {
            Some(raw) => Some(saturate(raw * 10 + bonus(hay, q) + field_weight(f))),
            None => None,
        }
    }
}

/// Keep `best` unless field `f` scored strictly higher.
pub open spec fn consider(best: Option<(MatchField, u32)>, f: MatchField, s: Option<u32>) -> Option<(MatchField, u32)> {
    match s {
        None => best,
        Some(w) => match best {
            None => Some((f, w)),
            Some((bf, b)) => if w > b {
                Some((f, w))
            } else {
                best
            },
        },
    }
}

/// The best-scoring field of an entry (number, title, filename, body; the
/// earlier field wins a tie), or `None` if no field matches.
pub open spec fn best_match(e: HymnEntry, q: Seq<char>) -> Option<(MatchField, u32)> {
    consider(
        consider(
            consider(
                consider(None, MatchField::Number, field_score(e, q, MatchField::Number)),
                MatchField::Title,
                field_score(e, q, MatchField::Title),
            ),
            MatchField::Filename,
            field_score(e, q, MatchField::Filename),
        ),
        MatchField::Body,
        field_score(e, q, MatchField::Body),
    )
}

/// Ranked order of scored hits: higher score first, then lower index.
pub open spec fn ranked_before(a: SearchHit, b: SearchHit) -> bool {
    a.score > b.score || (a.score == b.score && a.index < b.index)
}

// ---------------------------------------------------------------------------
// Ordering by hymn number
// ---------------------------------------------------------------------------

/// Lexicographic order on characters (std's order on `String`, which compares
/// UTF-8 bytes, agrees with it).
pub open spec fn chars_lt(a: Seq<char>, b: Seq<char>) -> bool
    decreases a.len(),
{
    if a.len() == 0 {
        b.len() > 0
    } else if b.len() == 0 {
        false
    } else if a[0] != b[0] {
        a[0] < b[0]
    } else {
        chars_lt(a.drop_first(), b.drop_first())
    }
}

/// The leading ASCII digits of `s`.
pub open spec fn leading_digits(s: Seq<char>) -> Seq<char>
    decreases s.len(),
{
    if s.len() > 0 && is_ascii_digit(s[0]) {
        seq![s[0]] + leading_digits(s.drop_first())
    } else {
        seq![]
    }
}

/// Sort key for a hymn number: its leading digits as a number (`u32::MAX`
/// when absent or too large, and for no number at all), then the rest of the
/// text as a tiebreaker.
pub open spec fn number_key(number: Option<Seq<char>>) -> (u32, Seq<char>) {
    match number {
        Some(s) => {
            let d = leading_digits(s);
            (
                match parse_u32_spec(d) {
                    Some(v) => v,
                    None => u32::MAX,
                },
                s.skip(d.len() as int),
            )
        },
        None => (u32::MAX, seq![]),
    }
}

/// Strict order on sort keys.
pub open spec fn key_lt(a: (u32, Seq<char>), b: (u32, Seq<char>)) -> bool {
    a.0 < b.0 || (a.0 == b.0 && chars_lt(a.1, b.1))
}

/// The sort key of an entry.
pub open spec fn entry_key(e: HymnEntry) -> (u32, Seq<char>) {
    number_key(
        match e.number {
            Some(n) => Some(n@),
            None => None,
        },
    )
}

/// Listing order of entries for an empty query: by number key, then by
/// position (the sort is stable).
pub open spec fn listed_before(entries: Seq<HymnEntry>, i: int, j: int) -> bool {
    key_lt(entry_key(entries[i]), entry_key(entries[j])) || (entry_key(entries[i]) == entry_key(entries[j]) && i < j)
}

proof fn lemma_chars_lt_irreflexive(a: Seq<char>)
    ensures
        !chars_lt(a, a),
    decreases a.len(),
{
    if a.len() > 0 {
        lemma_chars_lt_irreflexive(a.drop_first());
    }
}

proof fn lemma_chars_lt_total(a: Seq<char>, b: Seq<char>)
    ensures
        a == b || chars_lt(a, b) || chars_lt(b, a),
    decreases a.len(),
{
    if a.len() > 0 && b.len() > 0 && a[0] == b[0] {
        lemma_chars_lt_total(a.drop_first(), b.drop_first());
        if a.drop_first() == b.drop_first() {
            assert(a == seq![a[0]] + a.drop_first());
            assert(b == seq![b[0]] + b.drop_first());
        }
    } else if a.len() == 0 && b.len() == 0 {
        assert(a == b);
    }
}

proof fn lemma_chars_lt_transitive(a: Seq<char>, b: Seq<char>, c: Seq<char>)
    requires
        chars_lt(a, b),
        chars_lt(b, c),
    ensures
        chars_lt(a, c),
    decreases a.len(),
{
    if a.len() > 0 && b.len() > 0 && c.len() > 0 && a[0] == b[0] && b[0] == c[0] {
        lemma_chars_lt_transitive(a.drop_first(), b.drop_first(), c.drop_first());
    }
}

proof fn lemma_chars_lt_asymmetric(a: Seq<char>, b: Seq<char>)
    requires
        chars_lt(a, b),
    ensures
        !chars_lt(b, a),
    decreases a.len(),
{
    if a.len() > 0 && b.len() > 0 && a[0] == b[0] {
        lemma_chars_lt_asymmetric(a.drop_first(), b.drop_first());
    }
}

/// Whether `a` sorts strictly before `b`.
fn less_chars(a: &[char], b: &[char]) -> (r: bool)
    ensures
        r == chars_lt(a@, b@),
{
    let mut i: usize = 0;
    assert(a@.skip(0) == a@);
    assert(b@.skip(0) == b@);
    while i < a.len() && i < b.len() && a[i] == b[i]
        invariant
            i <= a.len(),
            i <= b.len(),
            chars_lt(a@, b@) == chars_lt(a@.skip(i as int), b@.skip(i as int)),
        decreases a.len() - i,
    {
        assert(a@.skip(i as int).drop_first() == a@.skip(i + 1));
        assert(b@.skip(i as int).drop_first() == b@.skip(i + 1));
        i += 1;
    }
    if i == a.len() {
        i < b.len()
    } else if i == b.len() {
        false
    } else {
        a[i] < b[i]
    }
}

/// A number's sort key, with the tiebreaker as characters.
struct SortKey {
    num: u32,
    rest: Vec<char>,
}

/// Sort key for a hymn number that orders numerically with a letter suffix as
/// the tiebreaker: "664" < "664a" < "664b" < "665". Numbers come before any
/// non-numeric/`None` value. Returns `(numeric, suffix)`; unparseable or `None`
/// sort last via `u32::MAX`.
pub fn number_sort_key(number: Option<&str>) -> (r: (u32, String))
    ensures
        (r.0, r.1@) == number_key(
            match number {
                Some(s) => Some(s@),
                None => None,
            },
        ),
{
    match number {
        Some(s) => {
            let v = chars_of(s);
            let (num, rest) = key_of_chars(&v);
            (num, crate::text::string_of(rest.as_slice()))
        },
        None => (u32::MAX, String::new()),
    }
}

/// `number_key` of a character sequence.
fn key_of_chars(v: &Vec<char>) -> (r: (u32, Vec<char>))
    ensures
        (r.0, r.1@) == number_key(Some(v@)),
{
    let mut i: usize = 0;
    assert(v@.skip(0) == v@);
    assert(v@.take(0) == Seq::<char>::empty());
    while i < v.len() && '0' <= v[i] && v[i] <= '9'
        invariant
            i <= v.len(),
            leading_digits(v@) == v@.take(i as int) + leading_digits(v@.skip(i as int)),
            all_digits(v@.take(i as int)),
        decreases v.len() - i,
    {
        proof {
            let t = v@.skip(i as int);
            assert(t[0] == v@[i as int]);
            assert(t.drop_first() == v@.skip(i + 1));
            assert(v@.take(i + 1) == v@.take(i as int) + seq![v@[i as int]]);
        }
        i += 1;
    }
    proof {
        let t = v@.skip(i as int);
        if i < v.len() {
            assert(t[0] == v@[i as int]);
        }
        assert(leading_digits(t) == Seq::<char>::empty());
        assert(leading_digits(v@) == v@.take(i as int));
    }
    let mut digits: Vec<char> = Vec::new();
    let mut rest: Vec<char> = Vec::new();
    let mut k: usize = 0;
    while k < v.len()
        invariant
            i <= v.len(),
            k <= v.len(),
            digits@ == v@.take(if k < i { k as int } else { i as int }),
            rest@ == (if k < i { Seq::<char>::empty() } else { v@.subrange(i as int, k as int) }),
        decreases v.len() - k,
    {
        if k < i {
            digits.push(v[k]);
            assert(v@.take(k + 1) == v@.take(k as int).push(v@[k as int]));
        } else {
            rest.push(v[k]);
            assert(v@.subrange(i as int, k + 1) == v@.subrange(i as int, k as int).push(v@[k as int]));
        }
        k += 1;
    }
    assert(v@.subrange(i as int, v.len() as int) == v@.skip(i as int));
    let num = match parse_u32(digits.as_slice()) {
        Some(n) => n,
        None => u32::MAX,
    };
    (num, rest)
}

/// Whether `(a.num, a.rest)` sorts strictly before `(b.num, b.rest)`.
fn key_less(a: &SortKey, b: &SortKey) -> (r: bool)
    ensures
        r == key_lt((a.num, a.rest@), (b.num, b.rest@)),
{
    if a.num < b.num {
        true
    } else if a.num == b.num {
        less_chars(a.rest.as_slice(), b.rest.as_slice())
    } else {
        false
    }
}

proof fn lemma_key_lt_facts(a: (u32, Seq<char>), b: (u32, Seq<char>), c: (u32, Seq<char>))
    ensures
        !key_lt(a, a),
        a == b || key_lt(a, b) || key_lt(b, a),
        key_lt(a, b) ==> !key_lt(b, a),
        key_lt(a, b) && key_lt(b, c) ==> key_lt(a, c),
{
    lemma_chars_lt_irreflexive(a.1);
    lemma_chars_lt_total(a.1, b.1);
    if chars_lt(a.1, b.1) {
        lemma_chars_lt_asymmetric(a.1, b.1);
    }
    if chars_lt(a.1, b.1) && chars_lt(b.1, c.1) {
        lemma_chars_lt_transitive(a.1, b.1, c.1);
    }
}

// ---------------------------------------------------------------------------
// The searcher
// ---------------------------------------------------------------------------

/// Insert `hit` into `hits`, kept in ranked order; `hit` comes after every
/// hit already present with at least its score.
fn insert_ranked<'a>(hits: &mut Vec<SearchHit<'a>>, hit: SearchHit<'a>) -> (p: usize)
    requires
        forall|j: int, k: int| 0 <= j < k < old(hits).len() ==> ranked_before(old(hits)@[j], old(hits)@[k]),
        forall|k: int| 0 <= k < old(hits).len() ==> (#[trigger] old(hits)@[k]).index < hit.index,
    ensures
        p <= old(hits).len(),
        final(hits)@ == old(hits)@.insert(p as int, hit),
        forall|j: int, k: int| 0 <= j < k < final(hits).len() ==> ranked_before(final(hits)@[j], final(hits)@[k]),
        forall|j: int| 0 <= j < p ==> (#[trigger] old(hits)@[j]).score >= hit.score,
        forall|j: int| p <= j < old(hits).len() ==> (#[trigger] old(hits)@[j]).score < hit.score,
{
    let ghost old_hits = hits@;
    let mut p: usize = 0;
    while p < hits.len() && hits[p].score >= hit.score
        invariant
            p <= hits.len(),
            hits@ == old_hits,
            forall|j: int| 0 <= j < p ==> (#[trigger] hits@[j]).score >= hit.score,
        decreases hits.len() - p,
    {
        p += 1;
    }
    hits.insert(p, hit);
    proof {
        assert forall|j: int, k: int| 0 <= j < k < hits.len() implies ranked_before(hits@[j], hits@[k]) by {
            if k < p {
                assert(ranked_before(old_hits[j], old_hits[k]));
            } else if k == p {
                assert(old_hits[j].score >= hit.score);
            } else if j < p {
                assert(ranked_before(old_hits[j], old_hits[k - 1]));
            } else if j == p {
                assert(old_hits[p as int].score < hit.score);
                if k - 1 > p {
                    assert(ranked_before(old_hits[p as int], old_hits[k - 1]));
                }
            } else {
                assert(ranked_before(old_hits[j - 1], old_hits[k - 1]));
            }
        }
        assert forall|j: int| p <= j < old_hits.len() implies (#[trigger] old_hits[j]).score < hit.score by {
            assert(old_hits[p as int].score < hit.score);
            if j > p {
                assert(ranked_before(old_hits[p as int], old_hits[j]));
            }
        }
    }
    p
}

/// Hits in ranked order have non-increasing scores, equal scores in index
/// order.
proof fn lemma_ranked_scores(hits: Seq<SearchHit>)
    requires
        forall|j: int, k: int| 0 <= j < k < hits.len() ==> ranked_before(hits[j], hits[k]),
    ensures
        forall|j: int, k: int| 0 <= j < k < hits.len() ==> hits[j].score >= hits[k].score,
        forall|j: int, k: int| 0 <= j < k < hits.len() && hits[j].score == hits[k].score
            ==> hits[j].index < hits[k].index,
{
    assert forall|j: int, k: int| 0 <= j < k < hits.len() implies hits[j].score >= hits[k].score by {
        assert(ranked_before(hits[j], hits[k]));
    }
    assert forall|j: int, k: int| 0 <= j < k < hits.len() && hits[j].score == hits[k].score
        implies hits[j].index < hits[k].index by {
        assert(ranked_before(hits[j], hits[k]));
    }
}

/// Pre-folded searchable text for one entry, kept alongside the entry.
struct Indexed {
    entry: HymnEntry,
    number_str: String,
    title_folded: String,
    filename_folded: String,
    body_folded: String,
}

impl Indexed {
    spec fn wf(self) -> bool {
        &&& self.number_str@ == field_text(self.entry, MatchField::Number)
        &&& self.title_folded@ == field_text(self.entry, MatchField::Title)
        &&& self.filename_folded@ == field_text(self.entry, MatchField::Filename)
        &&& self.body_folded@ == field_text(self.entry, MatchField::Body)
    }
}

/// In-memory fuzzy searcher over hymn entries.
pub struct Searcher {
    items: Vec<Indexed>,
}

impl Searcher {
    #[verifier::type_invariant]
    spec fn inv(self) -> bool {
        forall|i: int| 0 <= i < self.items.len() ==> (#[trigger] self.items[i]).wf()
    }

    /// The indexed entries, in the order they were given.
    pub closed spec fn entries(self) -> Seq<HymnEntry> {
        self.items@.map_values(|it: Indexed| it.entry)
    }

    pub fn new(entries: Vec<HymnEntry>) -> (r: Self)
        ensures
            r.entries() == entries@,
    {
        let ghost given = entries@;
        let mut items: Vec<Indexed> = Vec::new();
        for entry in it: entries.into_iter()
            invariant
                it.seq() == given,
                items.len() == it.index(),
                forall|i: int| 0 <= i < items.len() ==> (#[trigger] items@[i]).wf(),
                forall|i: int| 0 <= i < items.len() ==> (#[trigger] items@[i]).entry == given[i],
        {
            let filename = match file_stem_of(entry.path.as_str()) {
                Some(s) => s,
                None => String::new(),
            };
            let number_str = match &entry.number {
                Some(n) => n.clone(),
                None => String::new(),
            };
            let title_folded = fold(entry.title.as_str());
            let filename_folded = fold(filename.as_str());
            let body_folded = fold(entry.body.as_str());
            let indexed = Indexed { entry, number_str, title_folded, filename_folded, body_folded };
            items.push(indexed);
        }
        let r = Searcher { items };
        assert(r.entries() == given);
        r
    }

    /// Number of indexed hymns.
    pub fn len(&self) -> (r: usize)
        ensures
            r == self.entries().len(),
    {
        self.items.len()
    }

    /// True when no hymns are indexed.
    pub fn is_empty(&self) -> (r: bool)
        ensures
            r == (self.entries().len() == 0),
    {
        self.items.len() == 0
    }

    /// Look up an entry by the `index` carried on a [`SearchHit`].
    pub fn entry(&self, index: usize) -> (r: Option<&HymnEntry>)
        ensures
            match r {
                Some(e) => index < self.entries().len() && *e == self.entries()[index as int],
                None => index >= self.entries().len(),
            },
    {
        if index < self.items.len() {
            Some(&self.items[index].entry)
        } else {
            None
        }
    }

    /// Score one field of an entry; `None` when it does not match.
    fn score_field(
        query: &FuzzyQuery,
        matcher: &mut Matcher,
        q: &Vec<char>,
        hay: &String,
        f: MatchField,
        Ghost(e): Ghost<HymnEntry>,
    ) -> (r: Option<u32>)
        requires
            hay@ == field_text(e, f),
            query.text@ == q@,
        ensures
            r == field_score(e, q@, f),
    {
        let h = chars_of(hay.as_str());
        if h.len() == 0 || h.len() > 0xFFFF_FFFF {
            return None;
        }
        match score_fuzzy(query, matcher, hay.as_str()) {
            Some(raw) => {
                let b: u64 = if h.len() == q.len() && starts_with(h.as_slice(), q.as_slice()) {
                    proof {
                        assert(h@.subrange(0, q@.len() as int) == h@);
                    }
                    20_000
                } else if starts_with(h.as_slice(), q.as_slice()) {
                    proof {
                        if h@ == q@ {
                            assert(h@.subrange(0, q@.len() as int) == h@);
                        }
                    }
                    10_000
                } else if contains(h.as_slice(), q.as_slice()) {
                    proof {
                        if h@ == q@ {
                            assert(h@.subrange(0, q@.len() as int) == h@);
                        }
                    }
                    5_000
                } else {
                    proof {
                        if h@ == q@ {
                            assert(h@.subrange(0, q@.len() as int) == h@);
                        }
                    }
                    0
                };
                let w: u64 = match f {
                    MatchField::Number => 4,
                    MatchField::Title => 3,
                    MatchField::Filename => 2,
                    MatchField::Body => 1,
                };
                let total: u64 = (raw as u64) * 10 + b + w;
                if total > 0xFFFF_FFFF {
                    Some(0xFFFF_FFFFu32)
                } else {
                    Some(total as u32)
                }
            },
            None => None,
        }
    }

    /// The best field of one indexed entry.
    fn best_of(it: &Indexed, query: &FuzzyQuery, matcher: &mut Matcher, q: &Vec<char>) -> (r: Option<(MatchField, u32)>)
        requires
            it.wf(),
            query.text@ == q@,
        ensures
            r == best_match(it.entry, q@),
    {
        let ghost e = it.entry;
        let mut best: Option<(MatchField, u32)> = None;
        let s = Self::score_field(query, matcher, q, &it.number_str, MatchField::Number, Ghost(e));
        best = Self::pick(best, MatchField::Number, s);
        let s = Self::score_field(query, matcher, q, &it.title_folded, MatchField::Title, Ghost(e));
        best = Self::pick(best, MatchField::Title, s);
        let s = Self::score_field(query, matcher, q, &it.filename_folded, MatchField::Filename, Ghost(e));
        best = Self::pick(best, MatchField::Filename, s);
        let s = Self::score_field(query, matcher, q, &it.body_folded, MatchField::Body, Ghost(e));
        best = Self::pick(best, MatchField::Body, s);
        best
    }

    /// `consider`, executable.
    fn pick(best: Option<(MatchField, u32)>, f: MatchField, s: Option<u32>) -> (r: Option<(MatchField, u32)>)
        ensures
            r == consider(best, f, s),
    {
        match s {
            None => best,
            Some(w) => match best {
                None => Some((f, w)),
                Some((bf, b)) => if w > b {
                    Some((f, w))
                } else {
                    best
                },
            },
        }
    }

    /// Rank entries against `query`. Empty query returns all entries sorted by
    /// hymn number. Otherwise fuzzy-matches across number, title, filename and
    /// body, keeping the best-scoring field per entry.
    ///
    /// Hits borrow their entry from the searcher (no body cloning per keystroke).
    pub fn search(&self, query: &str) -> (r: Vec<SearchHit<'_>>)
        ensures
            ({
                let q = fold_seq(query@);
                let es = self.entries();
                &&& forall|k: int| 0 <= k < r.len() ==> (#[trigger] r@[k]).index < es.len()
                    && *r@[k].entry == es[r@[k].index as int]
                &&& all_whitespace(q) ==> {
                    &&& r.len() == es.len()
                    &&& forall|k: int| 0 <= k < r.len() ==> (#[trigger] r@[k]).score == 0
                        && r@[k].field == MatchField::Number
                    &&& forall|j: int, k: int| 0 <= j < k < r.len() ==> listed_before(es, r@[j].index as int, r@[k].index as int)
                }
                &&& !all_whitespace(q) ==> {
                    &&& forall|k: int| 0 <= k < r.len() ==> best_match(es[(#[trigger] r@[k]).index as int], q)
                        == Some((r@[k].field, r@[k].score))
                    &&& forall|i: int| 0 <= i < es.len() && (#[trigger] best_match(es[i], q)) is Some
                        ==> exists|k: int| 0 <= k < r.len() && r@[k].index == i
                    &&& forall|j: int, k: int| 0 <= j < k < r.len() ==> ranked_before(r@[j], r@[k])
                    &&& forall|j: int, k: int| 0 <= j < k < r.len() ==> r@[j].score >= r@[k].score
                    &&& forall|j: int, k: int| 0 <= j < k < r.len() && r@[j].score == r@[k].score
                        ==> r@[j].index < r@[k].index
                }
            }),
    {
        proof {
            use_type_invariant(self);
        }
        let q = fold(query);
        if is_blank(q.as_str()) {
            return self.list_by_number();
        }
        let qv = chars_of(q.as_str());
        let fq = fuzzy_query(q.as_str());
        let mut matcher = new_matcher();
        let ghost es = self.entries();
        let mut hits: Vec<SearchHit<'_>> = Vec::new();
        let mut i: usize = 0;
        while i < self.items.len()
            invariant
                i <= self.items.len(),
                es == self.entries(),
                qv@ == q@,
                fq.text@ == q@,
                forall|n: int| 0 <= n < self.items.len() ==> (#[trigger] self.items[n]).wf(),
                forall|k: int| 0 <= k < hits.len() ==> (#[trigger] hits@[k]).index < i
                    && *hits@[k].entry == es[hits@[k].index as int]
                    && best_match(es[hits@[k].index as int], q@) == Some((hits@[k].field, hits@[k].score)),
                forall|n: int| 0 <= n < i && (#[trigger] best_match(es[n], q@)) is Some
                    ==> exists|k: int| 0 <= k < hits.len() && hits@[k].index == n,
                forall|j: int, k: int| 0 <= j < k < hits.len() ==> ranked_before(hits@[j], hits@[k]),
            decreases self.items.len() - i,
        {
            let it = &self.items[i];
            assert(it.wf());
            assert(it.entry == es[i as int]);
            let best = Self::best_of(it, &fq, &mut matcher, &qv);
            match best {
                Some((field, score)) => {
                    let hit = SearchHit { index: i, entry: &it.entry, score, field };
                    let ghost old_hits = hits@;
                    let p = insert_ranked(&mut hits, hit);
                    proof {
                        assert forall|n: int| 0 <= n < i + 1 && (#[trigger] best_match(es[n], q@)) is Some
                            implies exists|k: int| 0 <= k < hits.len() && hits@[k].index == n by {
                            if n == i {
                                assert(hits@[p as int].index == n);
                            } else {
                                let k0 = choose|k: int| 0 <= k < old_hits.len() && old_hits[k].index == n;
                                if k0 < p {
                                    assert(hits@[k0].index == n);
                                } else {
                                    assert(hits@[k0 + 1].index == n);
                                }
                            }
                        }
                    }
                },
                None => {
                    proof {
                        assert forall|n: int| 0 <= n < i + 1 && (#[trigger] best_match(es[n], q@)) is Some
                            implies exists|k: int| 0 <= k < hits.len() && hits@[k].index == n by {
                        }
                    }
                },
            }
            i += 1;
        }
        proof {
            lemma_ranked_scores(hits@);
        }
        hits
    }

    /// Every entry, ordered by hymn number (stable: equal numbers keep their
    /// order), as hits with score 0 on the number field.
    fn list_by_number(&self) -> (r: Vec<SearchHit<'_>>)
        ensures
            ({
                let es = self.entries();
                &&& r.len() == es.len()
                &&& forall|k: int| 0 <= k < r.len() ==> (#[trigger] r@[k]).index < es.len()
                    && *r@[k].entry == es[r@[k].index as int]
                    && r@[k].score == 0
                    && r@[k].field == MatchField::Number
                &&& forall|j: int, k: int| 0 <= j < k < r.len() ==> listed_before(es, r@[j].index as int, r@[k].index as int)
            }),
    {
        let ghost es = self.entries();
        let n = self.items.len();
        let mut keys: Vec<SortKey> = Vec::new();
        let mut i: usize = 0;
        while i < n
            invariant
                i <= n == self.items.len(),
                es == self.entries(),
                keys.len() == i,
                forall|k: int| 0 <= k < i ==> ((#[trigger] keys@[k]).num, keys@[k].rest@) == entry_key(es[k]),
            decreases n - i,
        {
            let (num, rest) = match &self.items[i].entry.number {
                Some(s) => {
                    let v = chars_of(s.as_str());
                    key_of_chars(&v)
                },
                None => (u32::MAX, Vec::new()),
            };
            keys.push(SortKey { num, rest });
            i += 1;
        }
        let mut order: Vec<usize> = Vec::new();
        let mut i: usize = 0;
        while i < n
            invariant
                i <= n == self.items.len() == keys.len(),
                es == self.entries(),
                forall|k: int| 0 <= k < n ==> ((#[trigger] keys@[k]).num, keys@[k].rest@) == entry_key(es[k]),
                order.len() == i,
                forall|k: int| 0 <= k < order.len() ==> (#[trigger] order@[k]) < i,
                forall|j: int, k: int| 0 <= j < k < order.len() ==> listed_before(es, order@[j] as int, order@[k] as int),
            decreases n - i,
        {
            let ghost old_order = order@;
            let mut p: usize = 0;
            while p < order.len() && !key_less(&keys[i], &keys[order[p]])
                invariant
                    p <= order.len(),
                    order@ == old_order,
                    i < n == keys.len(),
                    forall|k: int| 0 <= k < order.len() ==> (#[trigger] order@[k]) < i,
                    forall|j: int| 0 <= j < p ==> !key_lt(entry_key(es[i as int]), entry_key(es[#[trigger] order@[j] as int])),
                    forall|k: int| 0 <= k < n ==> ((#[trigger] keys@[k]).num, keys@[k].rest@) == entry_key(es[k]),
                decreases order.len() - p,
            {
                p += 1;
            }
            order.insert(p, i);
            proof {
                assert(order@ == old_order.insert(p as int, i));
                assert forall|j: int, k: int| 0 <= j < k < order.len() implies listed_before(es, order@[j] as int, order@[k] as int) by {
                    let ki = entry_key(es[i as int]);
                    if k < p {
                        assert(listed_before(es, old_order[j] as int, old_order[k] as int));
                    } else if k == p {
                        let kj = entry_key(es[old_order[j] as int]);
                        lemma_key_lt_facts(ki, kj, kj);
                    } else if j < p {
                        assert(listed_before(es, old_order[j] as int, old_order[k - 1] as int));
                    } else if j == p {
                        let kp = entry_key(es[old_order[p as int] as int]);
                        let kk = entry_key(es[old_order[k - 1] as int]);
                        assert(key_lt(ki, kp));
                        if k - 1 > p {
                            assert(listed_before(es, old_order[p as int] as int, old_order[k - 1] as int));
                            lemma_key_lt_facts(ki, kp, kk);
                        }
                    } else {
                        assert(listed_before(es, old_order[j - 1] as int, old_order[k - 1] as int));
                    }
                }
            }
            i += 1;
        }
        proof {
            // Every position occurs in `order`: it has n distinct members below n.
            assert forall|j: int, k: int| 0 <= j < k < order.len() implies order@[j] != order@[k] by {
                assert(listed_before(es, order@[j] as int, order@[k] as int));
                if order@[j] == order@[k] {
                    lemma_key_lt_facts(entry_key(es[order@[j] as int]), entry_key(es[order@[j] as int]), entry_key(es[order@[j] as int]));
                }
            }
        }
        let mut hits: Vec<SearchHit<'_>> = Vec::new();
        let mut k: usize = 0;
        while k < n
            invariant
                k <= n == order.len() == self.items.len(),
                es == self.entries(),
                forall|m: int| 0 <= m < order.len() ==> (#[trigger] order@[m]) < n,
                hits.len() == k,
                forall|m: int| 0 <= m < k ==> (#[trigger] hits@[m]).index == order@[m]
                    && *hits@[m].entry == es[order@[m] as int]
                    && hits@[m].score == 0
                    && hits@[m].field == MatchField::Number,
            decreases n - k,
        {
            let idx = order[k];
            hits.push(SearchHit { index: idx, entry: &self.items[idx].entry, score: 0, field: MatchField::Number });
            k += 1;
        }
        hits
    }
}

} // verus!
