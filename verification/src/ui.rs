//! What the windows show, computed from the library's state: placeholder
//! filling for translated messages, finder rows, the editor's dropdown
//! choices, the projector target, the Settings library rows, the Control tab
//! and the slide preview. The application puts these values on screen.

use vstd::prelude::*;
use crate::library::{default_library, is_builtin_library, default_hymns_path, library_available, Config, Library};
use crate::i18n::{language_of_code, locale_language, Language};
use crate::model::HymnEntry;
use crate::theme::HAlign;
use crate::present::PresentationState;
use crate::text::{
    ascii_lowercase, chars_of, decimal, lowercased, views, push_char, push_str, string_of_range,
    to_ascii_lowercase, chars_equal, lowercase_str, str_eq, u32_to_decimal,
};

verus! {

// ---------------------------------------------------------------------------
// Placeholders
// ---------------------------------------------------------------------------

/// `s` with its first "{}" replaced by `w` (std `replacen("{}", w, 1)`).
pub open spec fn fill_first(s: Seq<char>, w: Seq<char>) -> Seq<char>
    decreases s.len(),
{
    if s.len() >= 2 && s[0] == '{' && s[1] == '}' {
        w + s.skip(2)
    } else if s.len() == 0 {
        s
    } else {
        seq![s[0]] + fill_first(s.drop_first(), w)
    }
}

/// `s` with every "{}" replaced by `w`, left to right (std `replace`).
pub open spec fn fill_all(s: Seq<char>, w: Seq<char>) -> Seq<char>
    decreases s.len(),
{
    if s.len() == 0 {
        s
    } else if s.len() >= 2 && s[0] == '{' && s[1] == '}' {
        w + fill_all(s.skip(2), w)
    } else {
        seq![s[0]] + fill_all(s.drop_first(), w)
    }
}

/// Replace the first "{}" in `fmt` with `value`.
pub fn fill_first_placeholder(fmt: &str, value: &str) -> (r: String)
    ensures
        r@ == fill_first(fmt@, value@),
{
    let v = chars_of(fmt);
    let mut out = String::new();
    let mut i: usize = 0;
    assert(v@.skip(0) == v@);
    while i < v.len()
        invariant
            i <= v.len(),
            v@ == fmt@,
            out@ == v@.take(i as int),
            fill_first(fmt@, value@) == out@ + fill_first(v@.skip(i as int), value@),
        decreases v.len() - i,
    {
        let ghost rest = v@.skip(i as int);
        if i + 1 < v.len() && v[i] == '{' && v[i + 1] == '}' {
            let tail = string_of_range(v.as_slice(), i + 2, v.len());
            proof {
                assert(rest[0] == v@[i as int] && rest[1] == v@[i + 1]);
                assert(rest.skip(2) == v@.subrange(i + 2, v@.len() as int));
            }
            push_str(&mut out, value);
            push_str(&mut out, tail.as_str());
            assert(out@ == v@.take(i as int) + (value@ + rest.skip(2)));
            return out;
        }
        proof {
            assert(rest[0] == v@[i as int]);
            assert(rest.drop_first() == v@.skip(i + 1));
            assert(v@.take(i + 1) == v@.take(i as int).push(v@[i as int]));
        }
        push_char(&mut out, v[i]);
        i += 1;
    }
    assert(v@.skip(i as int) == Seq::<char>::empty());
    assert(v@.take(i as int) == v@);
    out
}

/// Replace every "{}" in `fmt` with `value`.
pub fn fill_every_placeholder(fmt: &str, value: &str) -> (r: String)
    ensures
        r@ == fill_all(fmt@, value@),
{
    let v = chars_of(fmt);
    let mut out = String::new();
    let mut i: usize = 0;
    assert(v@.skip(0) == v@);
    while i < v.len()
        invariant
            i <= v.len(),
            v@ == fmt@,
            fill_all(fmt@, value@) == out@ + fill_all(v@.skip(i as int), value@),
        decreases v.len() - i,
    {
        let ghost rest = v@.skip(i as int);
        if i + 1 < v.len() && v[i] == '{' && v[i + 1] == '}' {
            proof {
                assert(rest[0] == v@[i as int] && rest[1] == v@[i + 1]);
                assert(rest.skip(2) == v@.skip(i + 2));
            }
            push_str(&mut out, value);
            i += 2;
        } else {
            proof {
                assert(rest[0] == v@[i as int]);
                assert(rest.drop_first() == v@.skip(i + 1));
            }
            push_char(&mut out, v[i]);
            i += 1;
        }
    }
    assert(v@.skip(i as int) == Seq::<char>::empty());
    out
}

/// `s` with its own "{}" placeholders filled, left to right, by `vals` in
/// order: the first placeholder gets `vals[0]`, the next `vals[1]`, and so
/// on; placeholders beyond the values stay, and a value is never scanned
/// for placeholders itself.
pub open spec fn fill_in(s: Seq<char>, vals: Seq<Seq<char>>) -> Seq<char>
    decreases s.len(),
{
    if s.len() == 0 {
        s
    } else if vals.len() > 0 && s.len() >= 2 && s[0] == '{' && s[1] == '}' {
        vals[0] + fill_in(s.skip(2), vals.drop_first())
    } else {
        seq![s[0]] + fill_in(s.drop_first(), vals)
    }
}

/// `fmt` with its first three "{}" filled with `a`, `b`, `c`, in order.
pub open spec fn fill3_spec(fmt: Seq<char>, a: Seq<char>, b: Seq<char>, c: Seq<char>) -> Seq<char> {
    fill_in(fmt, seq![a, b, c])
}

/// Fill the three `{}` placeholders of `fmt`, in order, with `a`, `b`, `c`.
pub fn fill3(fmt: &str, a: &str, b: &str, c: &str) -> (r: String)
    ensures
        r@ == fill3_spec(fmt@, a@, b@, c@),
{
    let vals: Vec<&str> = vec![a, b, c];
    let ghost vs = seq![a@, b@, c@];
    assert(vals@.map_values(|x: &str| x@) == vs);
    let v = chars_of(fmt);
    let mut out = String::new();
    let mut i: usize = 0;
    let mut j: usize = 0;
    assert(v@.skip(0) == v@);
    assert(vs.skip(0) == vs);
    while i < v.len()
        invariant
            i <= v.len(),
            j <= 3,
            v@ == fmt@,
            vals@.len() == 3,
            forall|k: int| 0 <= k < 3 ==> (#[trigger] vals@[k])@ == vs[k],
            vs == seq![a@, b@, c@],
            fill_in(fmt@, vs) == out@ + fill_in(v@.skip(i as int), vs.skip(j as int)),
        decreases v.len() - i,
    {
        let ghost rest = v@.skip(i as int);
        let ghost rv = vs.skip(j as int);
        if j < 3 && i + 1 < v.len() && v[i] == '{' && v[i + 1] == '}' {
            proof {
                assert(rest[0] == v@[i as int] && rest[1] == v@[i + 1]);
                assert(rest.skip(2) == v@.skip(i + 2));
                assert(rv[0] == vs[j as int]);
                assert(rv.drop_first() == vs.skip(j + 1));
            }
            push_str(&mut out, vals[j]);
            i += 2;
            j += 1;
        } else {
            proof {
                assert(rest[0] == v@[i as int]);
                assert(rest.drop_first() == v@.skip(i + 1));
                assert(rv.len() == 3 - j);
            }
            push_char(&mut out, v[i]);
            i += 1;
        }
    }
    assert(v@.skip(i as int) == Seq::<char>::empty());
    out
}

/// A value filled into a format is never filled itself: filling "{}" at the
/// front of a format puts the first value there as it is, and the rest of
/// the format gets the remaining values.
pub proof fn filled_values_stay_as_given(rest: Seq<char>, a: Seq<char>, b: Seq<char>, c: Seq<char>)
    ensures
        fill3_spec(seq!['{', '}'] + rest, a, b, c) == a + fill_in(rest, seq![b, c]),
{
    let s = seq!['{', '}'] + rest;
    assert(s.skip(2) == rest);
    assert(seq![a, b, c].drop_first() == seq![b, c]);
}

/// A format without "{}" is left as it is by filling.
pub proof fn filling_without_placeholder_is_identity(s: Seq<char>, w: Seq<char>)
    requires
        forall|i: int| 0 <= i < s.len() - 1 ==> !(s[i] == '{' && #[trigger] s[i + 1] == '}'),
    ensures
        fill_first(s, w) == s,
        fill_all(s, w) == s,
    decreases s.len(),
{
    if s.len() > 0 {
        let t = s.drop_first();
        assert forall|i: int| 0 <= i < t.len() - 1 implies !(t[i] == '{' && #[trigger] t[i + 1] == '}') by {
            assert(t[i] == s[i + 1] && t[i + 1] == s[i + 2]);
        }
        filling_without_placeholder_is_identity(t, w);
        if s.len() >= 2 {
            assert(!(s[0] == '{' && s[1] == '}'));
        }
        assert(seq![s[0]] + t == s);
    }
}

// ---------------------------------------------------------------------------
// Finder rows
// ---------------------------------------------------------------------------

/// One hymn as a single finder row: "150  Cerul, pământul  · Imnuri".
pub open spec fn row_text(number: Option<Seq<char>>, title: Seq<char>, library: Seq<char>) -> Seq<char> {
    let prefix = match number {
        Some(n) => n + "  "@,
        None => Seq::<char>::empty(),
    };
    prefix + title + "  · "@ + library
}

/// Format one hymn as a single finder row: "150  Cerul, pământul  · Imnuri".
pub fn row_label(entry: &HymnEntry) -> (r: String)
    ensures
        r@ == row_text(
            match entry.number {
                Some(n) => Some(n@),
                None => None,
            },
            entry.title@,
            entry.library@,
        ),
{
    let mut s = String::new();
    match &entry.number {
        Some(n) => {
            push_str(&mut s, n.as_str());
            push_str(&mut s, "  ");
        },
        None => {},
    }
    push_str(&mut s, entry.title.as_str());
    push_str(&mut s, "  · ");
    push_str(&mut s, entry.library.as_str());
    s
}

// ---------------------------------------------------------------------------
// Theme editor choices
// ---------------------------------------------------------------------------

/// The font weights the editor offers, in dropdown order.
pub open spec fn weight_values() -> Seq<u16> {
    seq![300u16, 400u16, 500u16, 700u16, 900u16]
}

/// The labels of the weights the editor offers, in dropdown order.
pub open spec fn weight_labels() -> Seq<Seq<char>> {
    seq!["Light"@, "Regular"@, "Medium"@, "Bold"@, "Black"@]
}

/// Weight dropdown options shown in the UI, paired with their numeric weight.
pub fn weight_options() -> (r: Vec<(&'static str, u16)>)
    ensures
        r@.len() == 5,
        forall|i: int| 0 <= i < 5 ==> (#[trigger] r@[i]).0@ == weight_labels()[i] && r@[i].1 == weight_values()[i],
{
    let v = vec![("Light", 300u16), ("Regular", 400u16), ("Medium", 500u16), ("Bold", 700u16), ("Black", 900u16)];
    assert(v@[0].1 == 300 && v@[1].1 == 400 && v@[2].1 == 500 && v@[3].1 == 700 && v@[4].1 == 900);
    v
}

/// The dropdown position of weight `w`: its place among the offered
/// weights, or that of Bold (3) for any other weight.
pub open spec fn weight_position(w: u16) -> int {
    if w == 300 {
        0
    } else if w == 400 {
        1
    } else if w == 500 {
        2
    } else if w == 700 {
        3
    } else if w == 900 {
        4
    } else {
        3
    }
}

/// The dropdown position of weight `w`.
pub fn weight_index(w: u16) -> (r: i32)
    ensures
        r == weight_position(w),
        0 <= r < 5,
{
    if w == 300 {
        0
    } else if w == 400 {
        1
    } else if w == 500 {
        2
    } else if w == 700 {
        3
    } else if w == 900 {
        4
    } else {
        3
    }
}

/// The weight picked at dropdown position `i` (a negative position counts
/// as the first); Regular (400) when past the end.
pub open spec fn weight_at_position(i: int) -> u16 {
    let k = if i < 0 { 0 } else { i };
    if k < 5 { weight_values()[k] } else { 400 }
}

/// The weight picked at dropdown position `i`.
pub fn weight_at(i: i32) -> (r: u16)
    ensures
        r == weight_at_position(i as int),
{
    let k: i32 = if i < 0 { 0 } else { i };
    if k == 0 {
        300
    } else if k == 1 {
        400
    } else if k == 2 {
        500
    } else if k == 3 {
        700
    } else if k == 4 {
        900
    } else {
        400
    }
}

/// Every offered weight is found again at its own position.
pub proof fn weight_position_round_trips(i: int)
    requires
        0 <= i < 5,
    ensures
        weight_position(weight_at_position(i)) == i,
{
}

/// The position of `family` among `families`, compared ignoring ASCII case:
/// the first match, or 0 when none matches.
pub open spec fn family_position(families: Seq<Seq<char>>, family: Seq<char>) -> int {
    if exists|i: int| 0 <= i < families.len() && ascii_lowercase(#[trigger] families[i]) == ascii_lowercase(family) {
        choose|i: int|
            0 <= i < families.len() && ascii_lowercase(families[i]) == ascii_lowercase(family) && forall|j: int|
                0 <= j < i ==> ascii_lowercase(#[trigger] families[j]) != ascii_lowercase(family)
    } else {
        0
    }
}

proof fn lemma_family_first(families: Seq<Seq<char>>, family: Seq<char>, i: int)
    requires
        0 <= i < families.len(),
        ascii_lowercase(families[i]) == ascii_lowercase(family),
        forall|j: int| 0 <= j < i ==> ascii_lowercase(#[trigger] families[j]) != ascii_lowercase(family),
    ensures
        family_position(families, family) == i,
{
    let w = choose|w: int|
        0 <= w < families.len() && ascii_lowercase(families[w]) == ascii_lowercase(family) && forall|j: int|
            0 <= j < w ==> ascii_lowercase(#[trigger] families[j]) != ascii_lowercase(family);
    assert(ascii_lowercase(families[i]) == ascii_lowercase(family));
    if w < i {
        assert(ascii_lowercase(families[w]) != ascii_lowercase(family));
    } else if w > i {
        assert(ascii_lowercase(families[i]) != ascii_lowercase(family));
    }
}

/// The dropdown position of font `family` among `families`.
pub fn family_index(families: &Vec<String>, family: &str) -> (r: i32)
    requires
        families.len() <= i32::MAX,
    ensures
        r == family_position(crate::text::views(families@), family@),
{
    let target = chars_of(family);
    let t = to_ascii_lowercase(target.as_slice());
    let ghost fs = crate::text::views(families@);
    let mut i: usize = 0;
    while i < families.len()
        invariant
            i <= families.len(),
            families.len() <= i32::MAX,
            fs == crate::text::views(families@),
            t@ == ascii_lowercase(family@),
            forall|j: int| 0 <= j < i ==> ascii_lowercase(#[trigger] fs[j]) != ascii_lowercase(family@),
        decreases families.len() - i,
    {
        let f = chars_of(families[i].as_str());
        let fl = to_ascii_lowercase(f.as_slice());
        if chars_equal(fl.as_slice(), t.as_slice()) {
            proof {
                assert(fs[i as int] == families@[i as int]@);
                lemma_family_first(fs, family@, i as int);
            }
            return i as i32;
        }
        assert(fs[i as int] == families@[i as int]@);
        i += 1;
    }
    0
}

// ---------------------------------------------------------------------------
// Displays
// ---------------------------------------------------------------------------

/// A connected display the user can project onto.
#[derive(Debug, Clone)]
pub struct Display {
    pub index: i32,
    pub label: String,
    pub x: i32,
    pub y: i32,
    pub is_primary: bool,
}

/// The default output among `displays`: the first non-primary display if
/// present, else the first one; 0 when there is none.
pub open spec fn default_display(displays: Seq<Display>) -> i32 {
    if exists|i: int| 0 <= i < displays.len() && !(#[trigger] displays[i]).is_primary {
        displays[choose|i: int|
            0 <= i < displays.len() && !displays[i].is_primary && forall|j: int|
                0 <= j < i ==> (#[trigger] displays[j]).is_primary].index
    } else if displays.len() > 0 {
        displays[0].index
    } else {
        0
    }
}

proof fn lemma_first_secondary(displays: Seq<Display>, i: int)
    requires
        0 <= i < displays.len(),
        !displays[i].is_primary,
        forall|j: int| 0 <= j < i ==> (#[trigger] displays[j]).is_primary,
    ensures
        default_display(displays) == displays[i].index,
{
    let w = choose|w: int|
        0 <= w < displays.len() && !displays[w].is_primary && forall|j: int|
            0 <= j < w ==> (#[trigger] displays[j]).is_primary;
    assert(!displays[i].is_primary);
    if w < i {
        assert(displays[w].is_primary);
    } else if w > i {
        assert(displays[i].is_primary);
    }
}

/// Pick a sensible default output: first non-primary display if present,
/// else primary.
pub fn default_display_index(displays: &Vec<Display>) -> (r: i32)
    ensures
        r == default_display(displays@),
{
    let mut i: usize = 0;
    while i < displays.len()
        invariant
            i <= displays.len(),
            forall|j: int| 0 <= j < i ==> (#[trigger] displays@[j]).is_primary,
        decreases displays.len() - i,
    {
        if !displays[i].is_primary {
            proof {
                lemma_first_secondary(displays@, i as int);
            }
            return displays[i].index;
        }
        i += 1;
    }
    if displays.len() > 0 {
        displays[0].index
    } else {
        0
    }
}

// ---------------------------------------------------------------------------
// Font families
// ---------------------------------------------------------------------------

/// Curated families that exist on virtually all systems, offered first.
pub open spec fn curated_families() -> Seq<Seq<char>> {
    seq![
        "sans-serif"@,
        "serif"@,
        "monospace"@,
        "Arial"@,
        "Helvetica"@,
        "Times New Roman"@,
        "Georgia"@,
        "Verdana"@,
    ]
}

/// `names` with every name dropped whose lowercase form an earlier name
/// already had (the first spelling stays), order kept.
pub open spec fn dedup_lower(names: Seq<Seq<char>>) -> Seq<Seq<char>>
    decreases names.len(),
{
    if names.len() == 0 {
        seq![]
    } else {
        let rest = dedup_lower(names.drop_last());
        if exists|j: int| 0 <= j < names.len() - 1 && lowercased(#[trigger] names[j]) == lowercased(names.last()) {
            rest
        } else {
            rest.push(names.last())
        }
    }
}

/// The font families the editor offers: the curated ones, then the system
/// families `system` (as enumerated), without repeats ignoring case.
pub fn families(system: Vec<String>) -> (r: Vec<String>)
    ensures
        views(r@) == dedup_lower(curated_families() + views(system@)),
{
    let mut all: Vec<String> = Vec::new();
    all.push(String::from_str("sans-serif"));
    all.push(String::from_str("serif"));
    all.push(String::from_str("monospace"));
    all.push(String::from_str("Arial"));
    all.push(String::from_str("Helvetica"));
    all.push(String::from_str("Times New Roman"));
    all.push(String::from_str("Georgia"));
    all.push(String::from_str("Verdana"));
    assert(views(all@) == curated_families());
    let mut k: usize = 0;
    let ghost base = all@;
    while k < system.len()
        invariant
            k <= system.len(),
            views(all@) == curated_families() + views(system@).take(k as int),
        decreases system.len() - k,
    {
        let name = system[k].clone();
        proof {
            assert(views(all@.push(name)) == views(all@).push(name@));
            assert(views(system@).take(k + 1) == views(system@).take(k as int).push(system@[k as int]@));
        }
        all.push(name);
        k += 1;
    }
    assert(views(system@).take(system.len() as int) == views(system@));
    let ghost names = views(all@);
    let mut out: Vec<String> = Vec::new();
    let mut keys: Vec<String> = Vec::new();
    let mut i: usize = 0;
    while i < all.len()
        invariant
            i <= all.len(),
            names == views(all@),
            views(out@) == dedup_lower(names.take(i as int)),
            keys.len() == i,
            forall|j: int| 0 <= j < i ==> (#[trigger] keys@[j])@ == lowercased(names[j]),
        decreases all.len() - i,
    {
        let key = lowercase_str(all[i].as_str());
        let mut seen = false;
        let mut j: usize = 0;
        while j < keys.len()
            invariant
                j <= keys.len(),
                keys.len() == i,
                seen == exists|m: int| 0 <= m < j && (#[trigger] keys@[m])@ == key@,
            decreases keys.len() - j,
        {
            if str_eq(keys[j].as_str(), key.as_str()) {
                seen = true;
            }
            j += 1;
        }
        proof {
            let t = names.take(i + 1);
            assert(t.drop_last() == names.take(i as int));
            assert(t.last() == names[i as int]);
            assert(names[i as int] == all@[i as int]@);
            if seen {
                let m = choose|m: int| 0 <= m < i && (#[trigger] keys@[m])@ == key@;
                assert(t[m] == names[m]);
                assert(lowercased(t[m]) == lowercased(t.last()));
            } else {
                assert forall|m: int| 0 <= m < t.len() - 1 implies lowercased(#[trigger] t[m]) != lowercased(t.last()) by {
                    assert(t[m] == names[m]);
                    assert(keys@[m]@ == lowercased(names[m]));
                }
            }
        }
        if !seen {
            let name = all[i].clone();
            proof {
                assert(views(out@.push(name)) == views(out@).push(name@));
            }
            out.push(name);
        }
        keys.push(key);
        i += 1;
    }
    assert(names.take(all.len() as int) == names);
    out
}

// ---------------------------------------------------------------------------
// Settings: library rows
// ---------------------------------------------------------------------------

/// One row of the Settings library list.
#[derive(Debug, Clone)]
pub struct LibraryRow {
    pub name: String,
    pub path: String,
    pub enabled: bool,
    /// Only user libraries can be removed; the git-managed one cannot.
    pub removable: bool,
    /// Whether the folder is reachable now.
    pub available: bool,
}

/// `row` shows library `l`. Whether the folder is reachable depends on the
/// file system and is not part of it.
pub open spec fn shows(row: LibraryRow, l: Library) -> bool {
    &&& row.name@ == l.name@
    &&& row.path@ == l.path@
    &&& row.enabled == l.enabled
    &&& row.removable == !l.managed_by_git
}

/// The Settings row for library `l`.
fn row_of(l: &Library) -> (r: LibraryRow)
    ensures
        shows(r, *l),
{
    LibraryRow {
        name: l.name.clone(),
        path: l.path.clone(),
        enabled: l.enabled,
        removable: !l.managed_by_git,
        available: library_available(l.path.as_str()),
    }
}

/// The Settings rows for `cfg`: one per library, in order, and the built-in
/// library first when it is not yet in the config (so the default library
/// shows before it is persisted; when the data directory is unknown it
/// cannot be shown).
pub fn library_rows(cfg: &Config) -> (r: Vec<LibraryRow>)
    ensures
        r@.len() == cfg.libraries@.len() ==> forall|i: int| 0 <= i < r@.len() ==> shows(#[trigger] r@[i], cfg.libraries@[i]),
        r@.len() == cfg.libraries@.len() + 1 ==> {
            &&& !crate::refresh::has_managed(cfg.libraries@)
            &&& exists|l: Library, d: Seq<char>| #[trigger] is_builtin_library(l, default_hymns_path(d)) && shows(r@[0], l)
            &&& forall|i: int| 0 <= i < cfg.libraries@.len() ==> shows(#[trigger] r@[i + 1], cfg.libraries@[i])
        },
        crate::refresh::has_managed(cfg.libraries@) ==> r@.len() == cfg.libraries@.len(),
        r@.len() == cfg.libraries@.len() || r@.len() == cfg.libraries@.len() + 1,
{
    let mut rows: Vec<LibraryRow> = Vec::new();
    let mut managed = false;
    let mut i: usize = 0;
    while i < cfg.libraries.len()
        invariant
            i <= cfg.libraries.len(),
            rows@.len() == i,
            forall|j: int| 0 <= j < i ==> shows(#[trigger] rows@[j], cfg.libraries@[j]),
            managed == exists|j: int| 0 <= j < i && (#[trigger] cfg.libraries@[j]).managed_by_git,
        decreases cfg.libraries.len() - i,
    {
        if cfg.libraries[i].managed_by_git {
            managed = true;
        }
        rows.push(row_of(&cfg.libraries[i]));
        i += 1;
    }
    if !managed {
        match default_library() {
            Some(d) => {
                let first = row_of(&d);
                let ghost before = rows@;
                rows.insert(0, first);
                assert forall|j: int| 0 <= j < cfg.libraries@.len() implies shows(#[trigger] rows@[j + 1], cfg.libraries@[j]) by {
                    assert(rows@[j + 1] == before[j]);
                }
            },
            None => {},
        }
    }
    rows
}

// ---------------------------------------------------------------------------
// Control tab
// ---------------------------------------------------------------------------

/// What the Control tab shows of the presentation.
#[derive(Debug, Clone)]
pub struct ControlView {
    /// "150. Title", or the title alone when the hymn has no number.
    pub title: String,
    /// The live slide's text ("" when none).
    pub live: String,
    /// The next slide's text ("" when none).
    pub next: String,
    /// "3/7" (current slide, count), or "" when no slide is loaded.
    pub position: String,
    pub blank: bool,
}

/// "N. " for a hymn numbered N, nothing for one without a number.
pub open spec fn number_prefix(number: Option<Seq<char>>) -> Seq<char> {
    match number {
        Some(n) => n + ". "@,
        None => Seq::<char>::empty(),
    }
}

/// The text of an optional string.
pub open spec fn opt_text(s: Option<String>) -> Option<Seq<char>> {
    match s {
        Some(t) => Some(t@),
        None => None,
    }
}

/// `v` is what the Control tab shows for the presentation `p`.
pub open spec fn control_of(v: ControlView, p: PresentationState) -> bool {
    let count = p.slides.len();
    &&& v.title@ == number_prefix(opt_text(p.number)) + p.title@
    &&& v.live@ == (if p.index < count { p.slides@[p.index as int]@ } else { Seq::<char>::empty() })
    &&& v.next@ == (if p.index + 1 < count { p.slides@[p.index + 1]@ } else { Seq::<char>::empty() })
    &&& v.position@ == (if count > 0 {
        decimal((p.index + 1) as nat) + "/"@ + decimal(count as nat)
    } else {
        Seq::<char>::empty()
    })
    &&& v.blank == p.blank
}

/// Mirror the presentation state into the Control tab's text properties.
pub fn control_view(p: &PresentationState) -> (r: ControlView)
    requires
        p.slides.len() > 0 ==> p.index < usize::MAX,
    ensures
        control_of(r, *p),
{
    let mut title = String::new();
    match &p.number {
        Some(n) => {
            push_str(&mut title, n.as_str());
            push_str(&mut title, ". ");
        },
        None => {},
    }
    push_str(&mut title, p.title.as_str());
    let live = match p.current_slide() {
        Some(s) => String::from_str(s),
        None => String::new(),
    };
    let next = match p.next_slide() {
        Some(s) => String::from_str(s),
        None => String::new(),
    };
    let count = p.slide_count();
    let position = if count > 0 {
        let mut s = crate::text::usize_to_decimal(p.index + 1);
        push_str(&mut s, "/");
        let c = crate::text::usize_to_decimal(count);
        push_str(&mut s, c.as_str());
        s
    } else {
        String::new()
    };
    ControlView { title, live, next, position, blank: p.blank }
}

// ---------------------------------------------------------------------------
// Slide preview
// ---------------------------------------------------------------------------

/// What the finder's preview shows of a hymn.
#[derive(Debug, Clone)]
pub struct SlidePreview {
    pub text: String,
    pub count: i32,
    pub index: i32,
    pub status: String,
}

/// `i` clamped into `0..=hi`.
pub open spec fn clamped(i: int, hi: int) -> int {
    if i < 0 {
        0
    } else if i > hi {
        hi
    } else {
        i
    }
}

/// `v` is the preview of slide `idx` (clamped into range) of `slides` for a
/// hymn titled `title`, numbered `number`, with the status line made from
/// `zero_fmt` (no slides: every "{}" is the title) or `counter_fmt` ("{}"
/// are the numbered title, the slide's position and the count).
pub open spec fn preview_of(
    v: SlidePreview,
    zero_fmt: Seq<char>,
    counter_fmt: Seq<char>,
    number: Option<Seq<char>>,
    title: Seq<char>,
    slides: Seq<Seq<char>>,
    idx: int,
) -> bool {
    let count = slides.len() as int;
    if count == 0 {
        &&& v.text@ == Seq::<char>::empty()
        &&& v.count == 0
        &&& v.index == 0
        &&& v.status@ == fill_all(zero_fmt, title)
    } else {
        let k = clamped(idx, count - 1);
        &&& v.text@ == slides[k]
        &&& v.count == count
        &&& v.index == k
        &&& v.status@ == fill3_spec(counter_fmt, number_prefix(number) + title, decimal((k + 1) as nat), decimal(count as nat))
    }
}

/// Update the preview to show slide `idx` of `slides` for a hymn titled
/// `title` (numbered `number`). Clamps `idx` into range; gives the slide
/// text, count, index, and the bottom status bar string.
pub fn slide_preview(
    zero_fmt: &str,
    counter_fmt: &str,
    number: Option<&str>,
    title: &str,
    slides: &Vec<String>,
    idx: i32,
) -> (r: SlidePreview)
    requires
        slides.len() <= i32::MAX,
    ensures
        preview_of(
            r,
            zero_fmt@,
            counter_fmt@,
            match number {
                Some(n) => Some(n@),
                None => None,
            },
            title@,
            views(slides@),
            idx as int,
        ),
{
    let count = slides.len();
    if count == 0 {
        return SlidePreview {
            text: String::new(),
            count: 0,
            index: 0,
            status: fill_every_placeholder(zero_fmt, title),
        };
    }
    let hi: i32 = (count - 1) as i32;
    let k: i32 = if idx < 0 {
        0
    } else if idx > hi {
        hi
    } else {
        idx
    };
    let mut titled = String::new();
    match number {
        Some(n) => {
            push_str(&mut titled, n);
            push_str(&mut titled, ". ");
        },
        None => {},
    }
    push_str(&mut titled, title);
    let position = u32_to_decimal((k + 1) as u32);
    let total = u32_to_decimal(count as u32);
    let status = fill3(counter_fmt, titled.as_str(), position.as_str(), total.as_str());
    let text = slides[k as usize].clone();
    SlidePreview { text, count: count as i32, index: k, status }
}

// ---------------------------------------------------------------------------
// Boot language, theme list, alignment, displays
// ---------------------------------------------------------------------------

/// The language the application starts in: the saved choice, else the one
/// of the OS locale, else English.
pub open spec fn starting_language(saved: Option<Seq<char>>, os_locale: Option<Seq<char>>) -> Language {
    match saved {
        Some(code) => language_of_code(code),
        None => match os_locale {
            Some(loc) => locale_language(loc),
            None => Language::En,
        },
    }
}

/// The language to start in, from the saved language code and the OS locale
/// (when one could be read).
pub fn boot_language(saved: Option<&str>, os_locale: Option<&str>) -> (r: Language)
    ensures
        r == starting_language(
            match saved {
                Some(c) => Some(c@),
                None => None,
            },
            match os_locale {
                Some(l) => Some(l@),
                None => None,
            },
        ),
{
    match saved {
        Some(code) => Language::from_code(code),
        None => match os_locale {
            Some(loc) => Language::from_locale(loc),
            None => Language::En,
        },
    }
}

/// The position of the theme named `active` among the theme `names`: the
/// first with that name, or 0 when none has it.
pub open spec fn theme_position(names: Seq<Seq<char>>, active: Seq<char>) -> int {
    if exists|i: int| 0 <= i < names.len() && #[trigger] names[i] == active {
        choose|i: int| 0 <= i < names.len() && names[i] == active && forall|j: int| 0 <= j < i ==> #[trigger] names[j] != active
    } else {
        0
    }
}

proof fn lemma_theme_first(names: Seq<Seq<char>>, active: Seq<char>, i: int)
    requires
        0 <= i < names.len(),
        names[i] == active,
        forall|j: int| 0 <= j < i ==> #[trigger] names[j] != active,
    ensures
        theme_position(names, active) == i,
{
    let w = choose|w: int| 0 <= w < names.len() && names[w] == active && forall|j: int| 0 <= j < w ==> #[trigger] names[j] != active;
    assert(names[i] == active);
    if w < i {
        assert(names[w] != active);
    } else if w > i {
        assert(names[i] != active);
    }
}

/// The thumbnail to highlight: the position of the active theme's name.
pub fn active_theme_index(names: &Vec<String>, active: &str) -> (r: i32)
    requires
        names.len() <= i32::MAX,
    ensures
        r == theme_position(views(names@), active@),
{
    let ghost ns = views(names@);
    let mut i: usize = 0;
    while i < names.len()
        invariant
            i <= names.len(),
            names.len() <= i32::MAX,
            ns == views(names@),
            forall|j: int| 0 <= j < i ==> #[trigger] ns[j] != active@,
        decreases names.len() - i,
    {
        assert(ns[i as int] == names@[i as int]@);
        if str_eq(names[i].as_str(), active) {
            proof {
                lemma_theme_first(ns, active@, i as int);
            }
            return i as i32;
        }
        i += 1;
    }
    0
}

/// The alignment name the slide views take.
pub fn h_align_text(a: HAlign) -> (r: &'static str)
    ensures
        r@ == (match a {
            HAlign::Left => "left"@,
            HAlign::Center => "center"@,
            HAlign::Right => "right"@,
        }),
{
    match a {
        HAlign::Left => "left",
        HAlign::Center => "center",
        HAlign::Right => "right",
    }
}

/// A screen as the OS reports it.
#[derive(Debug, Clone)]
pub struct ScreenInfo {
    pub name: String,
    pub width: u32,
    pub height: u32,
    pub x: i32,
    pub y: i32,
    pub is_primary: bool,
}

/// "name (WxH)", the picker label of a screen.
pub open spec fn screen_label(s: ScreenInfo) -> Seq<char> {
    s.name@ + " ("@ + decimal(s.width as nat) + "x"@ + decimal(s.height as nat) + ")"@
}

/// The displays the user can project onto, from the screens the OS reported
/// (`None` when enumeration failed): one per screen, numbered in order, or
/// a single primary display at the origin when there is none, so the picker
/// is never empty.
pub fn displays_from(screens: Option<Vec<ScreenInfo>>) -> (r: Vec<Display>)
    requires
        screens matches Some(v) ==> v.len() <= i32::MAX,
    ensures
        r@.len() >= 1,
        screens matches Some(v) ==> v.len() > 0 ==> {
            &&& r@.len() == v.len()
            &&& forall|i: int| 0 <= i < v.len() ==> {
                let d = #[trigger] r@[i];
                &&& d.index == i
                &&& d.label@ == screen_label(v@[i])
                &&& d.x == v@[i].x
                &&& d.y == v@[i].y
                &&& d.is_primary == v@[i].is_primary
            }
        },
        (match screens {
            Some(v) => v.len() == 0,
            None => true,
        }) ==> r@ =~= seq![r@[0]] && r@[0].index == 0 && r@[0].label@ == "Primary"@
            && r@[0].x == 0 && r@[0].y == 0 && r@[0].is_primary,
{
    match screens {
        Some(v) => {
            if v.len() > 0 {
                let mut out: Vec<Display> = Vec::new();
                let mut i: usize = 0;
                while i < v.len()
                    invariant
                        i <= v.len(),
                        v.len() <= i32::MAX,
                        out@.len() == i,
                        forall|k: int| 0 <= k < i ==> {
                            let d = #[trigger] out@[k];
                            &&& d.index == k
                            &&& d.label@ == screen_label(v@[k])
                            &&& d.x == v@[k].x
                            &&& d.y == v@[k].y
                            &&& d.is_primary == v@[k].is_primary
                        },
                    decreases v.len() - i,
                {
                    let s = &v[i];
                    let mut label = s.name.clone();
                    push_str(&mut label, " (");
                    let w = u32_to_decimal(s.width);
                    push_str(&mut label, w.as_str());
                    push_str(&mut label, "x");
                    let h = u32_to_decimal(s.height);
                    push_str(&mut label, h.as_str());
                    push_str(&mut label, ")");
                    out.push(Display { index: i as i32, label, x: s.x, y: s.y, is_primary: s.is_primary });
                    i += 1;
                }
                return out;
            }
        },
        None => {},
    }
    let mut out: Vec<Display> = Vec::new();
    out.push(Display { index: 0, label: String::from_str("Primary"), x: 0, y: 0, is_primary: true });
    out
}

} // verus!
