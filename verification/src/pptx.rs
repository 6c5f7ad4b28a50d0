//! Text extraction from .pptx files: which archive entries are slides, in
//! what order, how a slide's XML becomes lines, which lines are slide chrome,
//! and how number, title, slides and body are put together.
//!
//! The zip archive is read with the `zip` crate and the slide XML with
//! `quick-xml`; the file itself is read by the caller.

use vstd::prelude::*;
use crate::library::path_file_stem;
use crate::search::file_stem_of;
use crate::text::{
    strip_prefixes, strip_prefixes_exec, strip_suffixes, strip_suffixes_exec,
    all_digits, chars_of, contains, contains_char, ends_with, has_infix, has_prefix, has_suffix,
    is_ascii_digit, join, join_strings, parse_u32, parse_u32_spec, starts_with, trim, trimmed_chars,
    trimmed_string, views, lemma_trim_idempotent, lemma_trim_keeps, whitespace, trim_start, trim_end,
};
use quick_xml::events::Event;
use quick_xml::Reader;
use std::io::Cursor;
use std::io::Read;
use zip::result::ZipError;
use zip::ZipArchive;

verus! {

// ---------------------------------------------------------------------------
// Outside items
// ---------------------------------------------------------------------------

#[verifier::external_type_specification]
#[verifier::external_body]
#[verifier::reject_recursive_types(R)]
pub struct ExZipArchive<R>(ZipArchive<R>);

#[verifier::external_type_specification]
#[verifier::external_body]
pub struct ExZipError(ZipError);

#[verifier::external_type_specification]
#[verifier::external_body]
#[verifier::reject_recursive_types(T)]
pub struct ExCursor<T>(Cursor<T>);

#[verifier::external_type_specification]
#[verifier::external_body]
pub struct ExXmlError(quick_xml::Error);

/// For each entry of an opened archive, in the archive's order, the name
/// zip's `by_index` gives it, or `None` where zip cannot open that entry.
pub uninterp spec fn zip_entry_names(archive: ZipArchive<Cursor<Vec<u8>>>) -> Seq<Option<Seq<char>>>;

/// The text quick-xml's `escape::unescape` makes of raw XML text (entity and
/// character references replaced), or `None` when it rejects a reference.
pub uninterp spec fn xml_unescaped(raw: Seq<char>) -> Option<Seq<char>>;

/// The text of the entry named `name` of an opened archive, as zip's
/// `by_name` reads it whole and decoded as UTF-8, or `None` when it cannot
/// be read.
pub uninterp spec fn zip_entry_text(archive: ZipArchive<Cursor<Vec<u8>>>, name: Seq<char>) -> Option<Seq<char>>;

/// What `zip_entry_names` gives for the archive zip opens on `bytes`, or
/// `None` when zip does not accept the bytes as an archive.
pub uninterp spec fn zip_archive_names(bytes: Seq<u8>) -> Option<Seq<Option<Seq<char>>>>;

/// What `zip_entry_text` gives for the archive zip opens on `bytes`.
pub uninterp spec fn zip_archive_text(bytes: Seq<u8>, name: Seq<char>) -> Option<Seq<char>>;

/// zip `ZipArchive::new` over the bytes of a .pptx file. Claimed: it fails
/// exactly on the bytes zip does not accept, and what the opened archive
/// holds (its entries and their texts) depends only on the bytes.
#[verifier::external_body]
fn zip_open(bytes: Vec<u8>) -> (r: Result<ZipArchive<Cursor<Vec<u8>>>, ZipError>)
    ensures
        match r {
            Ok(a) => zip_archive_names(bytes@) == Some(zip_entry_names(a))
                && forall|n: Seq<char>| #[trigger] zip_entry_text(a, n) == zip_archive_text(bytes@, n),
            Err(_) => zip_archive_names(bytes@) is None,
        },
{
    ZipArchive::new(Cursor::new(bytes))
}

/// zip `ZipArchive::len`: the number of entries.
#[verifier::external_body]
fn zip_len(archive: &ZipArchive<Cursor<Vec<u8>>>) -> (n: usize)
    ensures
        n == zip_entry_names(*archive).len(),
{
    archive.len()
}

/// zip `ZipArchive::by_index(i)` and the entry's `name()`; `None` when the
/// entry cannot be opened. Claimed: the answer is the `i`-th of the
/// archive's entry names, and the archive's entries and their texts are
/// unchanged.
#[verifier::external_body]
fn zip_name_at(archive: &mut ZipArchive<Cursor<Vec<u8>>>, i: usize) -> (r: Option<String>)
    requires
        i < zip_entry_names(*old(archive)).len(),
    ensures
        zip_entry_names(*final(archive)) == zip_entry_names(*old(archive)),
        forall|n: Seq<char>| #[trigger] zip_entry_text(*final(archive), n) == zip_entry_text(*old(archive), n),
        match r {
            Some(s) => zip_entry_names(*old(archive))[i as int] == Some(s@),
            None => zip_entry_names(*old(archive))[i as int] is None,
        },
{
    archive.by_index(i).ok().map(|f| f.name().to_string())
}

/// zip `ZipArchive::by_name(name)` read to a `String` (std `read_to_string`).
/// Claimed: the text is the entry's text (an error exactly when it cannot
/// be read), and the archive's entries and their texts are unchanged.
#[verifier::external_body]
fn zip_read_text(archive: &mut ZipArchive<Cursor<Vec<u8>>>, name: &str) -> (r: Result<String, ZipError>)
    ensures
        zip_entry_names(*final(archive)) == zip_entry_names(*old(archive)),
        forall|n: Seq<char>| #[trigger] zip_entry_text(*final(archive), n) == zip_entry_text(*old(archive), n),
        match r {
            Ok(t) => zip_entry_text(*old(archive), name@) == Some(t@),
            Err(_) => zip_entry_text(*old(archive), name@) is None,
        },
{
    let mut file = archive.by_name(name)?;
    let mut text = String::new();
    file.read_to_string(&mut text)?;
    Ok(text)
}

/// One event of quick-xml's reader, as far as slide text needs it.
#[derive(Debug, Clone, PartialEq, Eq)]
pub enum XmlEvent {
    /// A start tag, by local name.
    Start(String),
    /// An end tag, by local name.
    End(String),
    /// Character data, still escaped.
    Text(String),
    /// Any other event (empty elements, comments, declarations, ...).
    Other,
}

/// The events quick-xml's reader gives for the whole of `xml` (a reader
/// made with `Reader::from_str`, read with `read_event_into` up to, not
/// including, the end of the document), or `None` when it reports an error.
pub uninterp spec fn xml_events(xml: Seq<char>) -> Option<Seq<XmlEvent>>;

/// quick-xml `Reader::from_str` read with `read_event_into` until the end of
/// the document, each event converted to an `XmlEvent`. Claimed: the events
/// depend only on the text; an error comes exactly when the reader reports
/// one.
#[verifier::external_body]
fn read_xml_events(xml: &str) -> (r: Result<Vec<XmlEvent>, quick_xml::Error>)
    ensures
        match r {
            Ok(v) => xml_events(xml@) == Some(v@),
            Err(_) => xml_events(xml@) is None,
        },
{
    let (mut reader, mut buf, mut events) = (Reader::from_str(xml), Vec::new(), Vec::new());
    loop {
        events.push(match reader.read_event_into(&mut buf)? {
            Event::Start(e) => XmlEvent::Start(String::from_utf8_lossy(e.local_name().as_ref()).into_owned()),
            Event::End(e) => XmlEvent::End(String::from_utf8_lossy(e.local_name().as_ref()).into_owned()),
            Event::Text(t) => XmlEvent::Text(String::from_utf8_lossy(&t.into_inner()).into_owned()),
            Event::Eof => return Ok(events),
            _ => XmlEvent::Other,
        });
    }
}

/// quick-xml `escape::unescape`. Claimed: the result depends only on the raw
/// text, and text without '&' comes back unchanged.
#[verifier::external_body]
fn unescape_xml(raw: &str) -> (r: Option<String>)
    ensures
        match r {
            Some(s) => xml_unescaped(raw@) == Some(s@),
            None => xml_unescaped(raw@) is None,
        },
        !raw@.contains('&') ==> (r is Some && r.unwrap()@ == raw@),
{
    quick_xml::escape::unescape(raw).ok().map(|c| c.into_owned())
}

/// Why a .pptx could not be read.
#[derive(Debug, Clone, Copy, PartialEq, Eq, Structural)]
pub enum PptxError {
    /// The file is not a readable zip archive, or an entry could not be read.
    Zip,
    /// A slide's XML is malformed or holds an unknown entity.
    Xml,
}

// ---------------------------------------------------------------------------
// Slide entries and their order
// ---------------------------------------------------------------------------

/// "ppt/slides/slide"
pub open spec fn slide_prefix() -> Seq<char> {
    seq!['p', 'p', 't', '/', 's', 'l', 'i', 'd', 'e', 's', '/', 's', 'l', 'i', 'd', 'e']
}

/// ".xml"
pub open spec fn xml_suffix() -> Seq<char> {
    seq!['.', 'x', 'm', 'l']
}

fn slide_prefix_chars() -> (r: Vec<char>)
    ensures
        r@ == slide_prefix(),
{
    let r = vec!['p', 'p', 't', '/', 's', 'l', 'i', 'd', 'e', 's', '/', 's', 'l', 'i', 'd', 'e'];
    assert(r@ == slide_prefix());
    r
}

fn xml_suffix_chars() -> (r: Vec<char>)
    ensures
        r@ == xml_suffix(),
{
    let r = vec!['.', 'x', 'm', 'l'];
    assert(r@ == xml_suffix());
    r
}

/// An archive entry that holds a slide.
pub open spec fn is_slide_entry(name: Seq<char>) -> bool {
    has_prefix(name, slide_prefix()) && has_suffix(name, xml_suffix())
}

/// Numeric slide index from "ppt/slides/slide12.xml" -> 12; `u32::MAX` when
/// the middle part is not a number.
pub open spec fn slide_number(name: Seq<char>) -> u32 {
    match parse_u32_spec(strip_suffixes(strip_prefixes(name, slide_prefix()), xml_suffix())) {
        Some(n) => n,
        None => u32::MAX,
    }
}

/// Numeric slide index from "ppt/slides/slide12.xml" -> 12.
pub fn slide_index(name: &str) -> (r: u32)
    ensures
        r == slide_number(name@),
{
    let v = chars_of(name);
    let p = slide_prefix_chars();
    let x = xml_suffix_chars();
    let a = strip_prefixes_exec(&v, &p);
    let b = strip_suffixes_exec(&a, &x);
    match parse_u32(b.as_slice()) {
        Some(n) => n,
        None => u32::MAX,
    }
}

/// Whether an archive entry holds a slide.
pub fn is_slide_entry_name(name: &str) -> (r: bool)
    ensures
        r == is_slide_entry(name@),
{
    let v = chars_of(name);
    let p = slide_prefix_chars();
    let x = xml_suffix_chars();
    starts_with(v.as_slice(), p.as_slice()) && ends_with(v.as_slice(), x.as_slice())
}

/// Order of slide entries: by slide index, then by position in the archive.
pub open spec fn slide_before(names: Seq<Seq<char>>, i: int, j: int) -> bool {
    slide_number(names[i]) < slide_number(names[j]) || (slide_number(names[i]) == slide_number(names[j]) && i < j)
}

/// The positions of the slide entries among `names`, sorted by slide index
/// (stable: entries with equal indices keep their archive order).
pub fn slide_order(names: &Vec<String>) -> (r: Vec<usize>)
    ensures
        is_slide_order(views(names@), r@),
{
    let ghost ns = views(names@);
    let mut keys: Vec<u32> = Vec::new();
    let mut i: usize = 0;
    while i < names.len()
        invariant
            i <= names.len(),
            ns == views(names@),
            keys.len() == i,
            forall|k: int| 0 <= k < i ==> #[trigger] keys@[k] == slide_number(ns[k]),
        decreases names.len() - i,
    {
        keys.push(slide_index(names[i].as_str()));
        i += 1;
    }
    let mut order: Vec<usize> = Vec::new();
    let mut i: usize = 0;
    while i < names.len()
        invariant
            i <= names.len() == keys.len(),
            ns == views(names@),
            forall|k: int| 0 <= k < names.len() ==> #[trigger] keys@[k] == slide_number(ns[k]),
            forall|k: int| 0 <= k < order.len() ==> (#[trigger] order@[k]) < i && is_slide_entry(names@[order@[k] as int]@),
            forall|n: int| 0 <= n < i && is_slide_entry((#[trigger] names@[n])@) ==> order@.contains(n as usize),
            forall|j: int, k: int| 0 <= j < k < order.len() ==> slide_before(ns, order@[j] as int, order@[k] as int),
        decreases names.len() - i,
    {
        if is_slide_entry_name(names[i].as_str()) {
            let ghost old_order = order@;
            let key = keys[i];
            let mut p: usize = 0;
            while p < order.len() && keys[order[p]] <= key
                invariant
                    p <= order.len(),
                    order@ == old_order,
                    i < names.len() == keys.len(),
                    key == keys@[i as int],
                    forall|k: int| 0 <= k < order.len() ==> (#[trigger] order@[k]) < i,
                    forall|j: int| 0 <= j < p ==> keys@[#[trigger] order@[j] as int] <= key,
                decreases order.len() - p,
            {
                p += 1;
            }
            order.insert(p, i);
            proof {
                assert(order@ == old_order.insert(p as int, i));
                assert forall|j: int, k: int| 0 <= j < k < order.len() implies slide_before(ns, order@[j] as int, order@[k] as int) by {
                    if k < p {
                        assert(slide_before(ns, old_order[j] as int, old_order[k] as int));
                    } else if k == p {
                        assert(keys@[old_order[j] as int] <= key);
                    } else if j < p {
                        assert(slide_before(ns, old_order[j] as int, old_order[k - 1] as int));
                    } else if j == p {
                        assert(keys@[old_order[p as int] as int] > key);
                        if k - 1 > p {
                            assert(slide_before(ns, old_order[p as int] as int, old_order[k - 1] as int));
                        }
                    } else {
                        assert(slide_before(ns, old_order[j - 1] as int, old_order[k - 1] as int));
                    }
                }
                assert forall|n: int| 0 <= n < i + 1 && is_slide_entry((#[trigger] names@[n])@) implies order@.contains(n as usize) by {
                    if n == i {
                        assert(order@[p as int] == i);
                    } else {
                        assert(old_order.contains(n as usize));
                        let k0 = choose|k: int| 0 <= k < old_order.len() && old_order[k] == n as usize;
                        if k0 < p {
                            assert(order@[k0] == n as usize);
                        } else {
                            assert(order@[k0 + 1] == n as usize);
                        }
                    }
                }
                assert forall|k: int| 0 <= k < order.len() implies (#[trigger] order@[k]) < i + 1 && is_slide_entry(names@[order@[k] as int]@) by {
                    if k < p {
                        assert(order@[k] == old_order[k]);
                    } else if k > p {
                        assert(order@[k] == old_order[k - 1]);
                    }
                }
            }
        }
        i += 1;
    }
    proof {
        assert forall|k: int| 0 <= k < order.len() implies (#[trigger] order@[k]) < ns.len() && is_slide_entry(ns[order@[k] as int]) by {
            assert(ns[order@[k] as int] == names@[order@[k] as int]@);
        }
        assert forall|n: int| 0 <= n < ns.len() && is_slide_entry(#[trigger] ns[n]) implies order@.contains(n as usize) by {
            assert(ns[n] == names@[n]@);
        }
    }
    order
}

// ---------------------------------------------------------------------------
// From slide XML events to lines
// ---------------------------------------------------------------------------

/// "p", the local name of a paragraph.
pub open spec fn paragraph_tag() -> Seq<char> {
    seq!['p']
}

/// "t", the local name of a text run.
pub open spec fn text_tag() -> Seq<char> {
    seq!['t']
}

/// State while collecting lines: lines so far, the paragraph being built,
/// whether inside a text run.
pub struct LineState {
    pub lines: Seq<Seq<char>>,
    pub current: Seq<char>,
    pub in_text: bool,
}

/// The lines after a paragraph ends: its trimmed text, unless empty.
pub open spec fn close_paragraph(lines: Seq<Seq<char>>, current: Seq<char>) -> Seq<Seq<char>> {
    if trim(current).len() > 0 {
        lines.push(trim(current))
    } else {
        lines
    }
}

/// One event applied to the collecting state; `None` when run text cannot
/// be unescaped. Runs within a paragraph are joined, so a line split into
/// several `<a:t>` runs is reconstructed; text outside runs is ignored.
pub open spec fn line_step(st: LineState, ev: XmlEvent) -> Option<LineState> {
    match ev {
        XmlEvent::Start(n) => if n@ == paragraph_tag() {
            Some(LineState { current: seq![], ..st })
        } else if n@ == text_tag() {
            Some(LineState { in_text: true, ..st })
        } else {
            Some(st)
        },
        XmlEvent::End(n) => if n@ == paragraph_tag() {
            Some(LineState { lines: close_paragraph(st.lines, st.current), current: seq![], ..st })
        } else if n@ == text_tag() {
            Some(LineState { in_text: false, ..st })
        } else {
            Some(st)
        },
        XmlEvent::Text(raw) => if st.in_text {
            match xml_unescaped(raw@) {
                Some(u) => Some(LineState { current: st.current + u, ..st }),
                None => None,
            }
        } else {
            Some(st)
        },
        _ => Some(st),
    }
}

/// The state after a sequence of events, from empty.
pub open spec fn lines_state(events: Seq<XmlEvent>) -> Option<LineState>
    decreases events.len(),
{
    if events.len() == 0 {
        Some(LineState { lines: seq![], current: seq![], in_text: false })
    } else {
        match lines_state(events.drop_last()) {
            Some(st) => line_step(st, events.last()),
            None => None,
        }
    }
}

/// Slide text as one line per paragraph (trimmed, empty ones dropped), with
/// trailing text not closed by a paragraph end flushed as a last line; `None`
/// when some run text cannot be unescaped.
pub open spec fn slide_lines(events: Seq<XmlEvent>) -> Option<Seq<Seq<char>>> {
    match lines_state(events) {
        Some(st) => Some(close_paragraph(st.lines, st.current)),
        None => None,
    }
}

/// Every line is non-empty and already trimmed.
pub open spec fn clean_lines(lines: Seq<Seq<char>>) -> bool {
    forall|i: int| 0 <= i < lines.len() ==> (#[trigger] lines[i]).len() > 0 && trim(lines[i]) == lines[i]
}

proof fn lemma_close_paragraph_clean(lines: Seq<Seq<char>>, current: Seq<char>)
    requires
        clean_lines(lines),
    ensures
        clean_lines(close_paragraph(lines, current)),
{
    lemma_trim_idempotent(current);
    let out = close_paragraph(lines, current);
    assert forall|i: int| 0 <= i < out.len() implies (#[trigger] out[i]).len() > 0 && trim(out[i]) == out[i] by {
        if i < lines.len() {
            assert(out[i] == lines[i]);
        }
    }
}

proof fn lemma_lines_state_clean(events: Seq<XmlEvent>)
    ensures
        lines_state(events) matches Some(st) ==> clean_lines(st.lines),
    decreases events.len(),
{
    if events.len() > 0 {
        lemma_lines_state_clean(events.drop_last());
        match lines_state(events.drop_last()) {
            Some(st) => {
                lemma_close_paragraph_clean(st.lines, st.current);
            },
            None => {},
        }
    }
}

/// Slide text comes out one clean line per paragraph: every line of a
/// slide is non-empty and trimmed (empty paragraphs are dropped, and runs
/// are joined before trimming).
pub proof fn slide_lines_are_clean(events: Seq<XmlEvent>)
    ensures
        slide_lines(events) matches Some(ls) ==> clean_lines(ls),
{
    lemma_lines_state_clean(events);
    match lines_state(events) {
        Some(st) => {
            lemma_close_paragraph_clean(st.lines, st.current);
        },
        None => {},
    }
}

/// The lines of a slide from the events of its XML (up to, not including,
/// the end of the document).
pub fn lines_from_events(events: &Vec<XmlEvent>) -> (r: Option<Vec<String>>)
    ensures
        match r {
            Some(lines) => slide_lines(events@) == Some(views(lines@)),
            None => slide_lines(events@) is None,
        },
{
    let mut lines: Vec<String> = Vec::new();
    let mut current = String::new();
    let mut in_text = false;
    let mut i: usize = 0;
    assert(events@.take(0) == Seq::<XmlEvent>::empty());
    assert(views(lines@) == Seq::<Seq<char>>::empty());
    assert(current@ == Seq::<char>::empty());
    while i < events.len()
        invariant
            i <= events.len(),
            lines_state(events@.take(i as int)) == Some(LineState { lines: views(lines@), current: current@, in_text }),
        decreases events.len() - i,
    {
        let ghost st = LineState { lines: views(lines@), current: current@, in_text };
        proof {
            assert(events@.take(i + 1).drop_last() == events@.take(i as int));
            assert(events@.take(i + 1).last() == events@[i as int]);
        }
        let ghost ev = events@[i as int];
        match &events[i] {
            XmlEvent::Start(n) => {
                if crate::text::str_eq(n.as_str(), "p") {
                    proof { reveal_strlit("p"); }
                    assert(n@ == "p"@);
                    assert("p"@ == seq!['p']);
                    assert(ev == XmlEvent::Start(*n));
                    assert(n@ == paragraph_tag());
                    current = String::new();
                    assert(current@ == Seq::<char>::empty());
                    assert(line_step(st, ev) == Some(LineState { lines: views(lines@), current: current@, in_text }));
                } else if crate::text::str_eq(n.as_str(), "t") {
                    proof {
                        reveal_strlit("p");
                        reveal_strlit("t");
                        assert("p"@ == seq!['p']);
                        assert("t"@ == seq!['t']);
                    }
                    assert(n@ != paragraph_tag());
                    assert(n@ == text_tag());
                    in_text = true;
                    assert(line_step(st, ev) == Some(LineState { lines: views(lines@), current: current@, in_text }));
                } else {
                    proof {
                        reveal_strlit("p");
                        reveal_strlit("t");
                        assert("p"@ == seq!['p']);
                        assert("t"@ == seq!['t']);
                    }
                    assert(n@ != paragraph_tag());
                    assert(n@ != text_tag());
                    assert(line_step(st, ev) == Some(LineState { lines: views(lines@), current: current@, in_text }));
                }
            },
            XmlEvent::End(n) => {
                if crate::text::str_eq(n.as_str(), "p") {
                    proof {
                        reveal_strlit("p");
                        assert("p"@ == seq!['p']);
                        assert(n@ == paragraph_tag());
                        assert(ev == XmlEvent::End(*n));
                    }
                    let line = trimmed_string(current.as_str());
                    if !line.as_str().is_empty() {
                        proof {
                            assert(views(lines@.push(line)) == views(lines@).push(line@));
                        }
                        lines.push(line);
                    }
                    current = String::new();
                    assert(current@ == Seq::<char>::empty());
                    assert(views(lines@) == close_paragraph(st.lines, st.current));
                    assert(line_step(st, ev) == Some(LineState { lines: views(lines@), current: current@, in_text }));
                } else if crate::text::str_eq(n.as_str(), "t") {
                    proof {
                        reveal_strlit("p");
                        reveal_strlit("t");
                        assert("p"@ == seq!['p']);
                        assert("t"@ == seq!['t']);
                    }
                    in_text = false;
                    assert(line_step(st, ev) == Some(LineState { lines: views(lines@), current: current@, in_text }));
                } else {
                    proof {
                        reveal_strlit("p");
                        reveal_strlit("t");
                        assert("p"@ == seq!['p']);
                        assert("t"@ == seq!['t']);
                    }
                    assert(line_step(st, ev) == Some(LineState { lines: views(lines@), current: current@, in_text }));
                }
            },
            XmlEvent::Text(raw) => {
                if in_text {
                    match unescape_xml(raw.as_str()) {
                        Some(u) => {
                            current.append(u.as_str());
                            assert(line_step(st, ev) == Some(LineState { lines: views(lines@), current: current@, in_text }));
                        },
                        None => {
                            proof {
                                lemma_lines_state_stays_failed(events@, i as int + 1);
                            }
                            return None;
                        },
                    }
                }
            },
            _ => {
                assert(line_step(st, ev) == Some(LineState { lines: views(lines@), current: current@, in_text }));
            },
        }
        i += 1;
    }
    assert(events@.take(events.len() as int) == events@);
    let line = trimmed_string(current.as_str());
    if !line.as_str().is_empty() {
        proof {
            assert(views(lines@.push(line)) == views(lines@).push(line@));
        }
        lines.push(line);
    }
    Some(lines)
}

proof fn lemma_lines_state_stays_failed(events: Seq<XmlEvent>, k: int)
    requires
        0 <= k <= events.len(),
        lines_state(events.take(k)) is None,
    ensures
        lines_state(events) is None,
    decreases events.len() - k,
{
    if k < events.len() {
        assert(events.take(k + 1).drop_last() == events.take(k));
        lemma_lines_state_stays_failed(events, k + 1);
    } else {
        assert(events.take(k) == events);
    }
}

/// The lines of the slide whose XML is `xml`: one per paragraph of the
/// events quick-xml reads from it; `None` when the XML cannot be read or a
/// run's text cannot be unescaped.
pub open spec fn slide_lines_of(xml: Seq<char>) -> Option<Seq<Seq<char>>> {
    match xml_events(xml) {
        Some(events) => slide_lines(events),
        None => None,
    }
}

/// Extract slide text as one line per paragraph (`<a:p>`).
///
/// PowerPoint frequently splits a single visible line into several `<a:t>`
/// runs (e.g. "Ca un " + "cerb" + " setos de " + "ape") for formatting or
/// spell-check boundaries. All runs within a paragraph are joined so the full
/// line is reconstructed, then trimmed; empty paragraphs are dropped.
pub fn slide_text_lines(xml: &str) -> (r: Result<Vec<String>, PptxError>)
    ensures
        match r {
            Ok(lines) => slide_lines_of(xml@) == Some(views(lines@)),
            Err(e) => e == PptxError::Xml && slide_lines_of(xml@) is None,
        },
        r matches Ok(lines) ==> clean_lines(views(lines@)),
{
    let events = match read_xml_events(xml) {
        Ok(v) => v,
        Err(_) => return Err(PptxError::Xml),
    };
    match lines_from_events(&events) {
        Some(lines) => {
            proof {
                slide_lines_are_clean(events@);
            }
            Ok(lines)
        },
        None => Err(PptxError::Xml),
    }
}

// ---------------------------------------------------------------------------
// Slide chrome, title, and assembling a hymn
// ---------------------------------------------------------------------------

/// "Imnul", the marker that opens the title slide.
pub open spec fn imnul() -> Seq<char> {
    seq!['I', 'm', 'n', 'u', 'l']
}

/// "IMNURI CREȘTINE", the footer on every slide of the bundled hymnal.
pub open spec fn hymnal_footer() -> Seq<char> {
    seq!['I', 'M', 'N', 'U', 'R', 'I', ' ', 'C', 'R', 'E', 'Ș', 'T', 'I', 'N', 'E']
}

/// Only digits and '/'.
pub open spec fn all_digits_or_slash(s: Seq<char>) -> bool {
    forall|i: int| 0 <= i < s.len() ==> is_ascii_digit(#[trigger] s[i]) || s[i] == '/'
}

/// True for "Imnul ...", a bare number, or a "N/M" counter like "1/300".
pub open spec fn marker_line(line: Seq<char>) -> bool {
    let l = trim(line);
    has_prefix(l, imnul()) || all_digits(l) || (l.contains('/') && all_digits_or_slash(l))
}

/// A standalone slide number such as "1." or "12".
pub open spec fn slide_number_line(line: Seq<char>) -> bool {
    let d = strip_suffixes(trim(line), seq!['.']);
    d.len() > 0 && all_digits(d)
}

/// Slide chrome: the "Imnul" marker, counters, bare and standalone slide
/// numbers, and the hymnal footer. Chrome is not slide text.
pub open spec fn chrome_line(line: Seq<char>) -> bool {
    marker_line(line) || slide_number_line(line) || has_infix(line, hymnal_footer())
}

/// Removing trailing dots keeps every character that is not a dot.
proof fn lemma_strip_dots_keeps(s: Seq<char>, c: char)
    requires
        s.contains(c),
        c != '.',
    ensures
        strip_suffixes(s, seq!['.']).contains(c),
    decreases s.len(),
{
    if has_suffix(s, seq!['.']) {
        let t = s.take(s.len() - 1);
        assert(s.last() == s.subrange(s.len() - 1, s.len() as int)[0]);
        let i = choose|i: int| 0 <= i < s.len() && s[i] == c;
        assert(i < s.len() - 1);
        assert(t[i] == c);
        lemma_strip_dots_keeps(t, c);
    }
}

/// Numbered lyric lines are slide text: a line holding a character that is
/// not an ASCII digit, a dot or whitespace (such as "1. Ca un cerb setos de
/// ape,") is chrome only as a marker or a footer line, never as a slide number.
pub proof fn numbered_lyric_lines_are_kept(line: Seq<char>, i: int)
    requires
        0 <= i < line.len(),
        !('0' <= line[i] && line[i] <= '9'),
        line[i] != '.',
        !whitespace(line[i]),
        !marker_line(line),
        !has_infix(line, hymnal_footer()),
    ensures
        !slide_number_line(line),
        !chrome_line(line),
{
    lemma_trim_keeps(line, i);
    lemma_strip_dots_keeps(trim(line), line[i]);
    let d = strip_suffixes(trim(line), seq!['.']);
    let k = choose|k: int| 0 <= k < d.len() && d[k] == line[i];
    assert(!is_ascii_digit(d[k]));
}

/// Removing the trailing dots of digits followed by dots leaves the digits.
proof fn lemma_strip_dots_of_number(d: Seq<char>, n: nat)
    requires
        d.len() > 0,
        d.last() != '.',
    ensures
        strip_suffixes(d + Seq::new(n, |k: int| '.'), seq!['.']) == d,
    decreases n,
{
    let s = d + Seq::new(n, |k: int| '.');
    if n == 0 {
        assert(s == d);
        assert(s.subrange(s.len() - 1, s.len() as int)[0] == d.last());
    } else {
        assert(s.subrange(s.len() - 1, s.len() as int) == seq!['.']);
        assert(s.take(s.len() - 1) == d + Seq::new((n - 1) as nat, |k: int| '.'));
        lemma_strip_dots_of_number(d, (n - 1) as nat);
    }
}

/// Standalone slide numbers are chrome: one or more ASCII digits followed by
/// any number of dots ("12", "1.", "3..") is never slide text.
pub proof fn standalone_numbers_are_chrome(d: Seq<char>, n: nat)
    requires
        d.len() > 0,
        forall|k: int| 0 <= k < d.len() ==> '0' <= #[trigger] d[k] && d[k] <= '9',
    ensures
        slide_number_line(d + Seq::new(n, |k: int| '.')),
        chrome_line(d + Seq::new(n, |k: int| '.')),
{
    let s = d + Seq::new(n, |k: int| '.');
    assert(s[0] == d[0]);
    assert(!whitespace(s[0]));
    assert(trim_start(s) == s);
    if n > 0 {
        assert(s.last() == '.');
    } else {
        assert(s.last() == d.last());
    }
    assert(!whitespace(s.last()));
    assert(trim_end(s) == s);
    assert(trim(s) == s);
    assert(d.last() == d[d.len() - 1]);
    lemma_strip_dots_of_number(d, n);
}

/// The lines of a slide that are not chrome, in order.
pub open spec fn content_lines(lines: Seq<Seq<char>>) -> Seq<Seq<char>>
    decreases lines.len(),
{
    if lines.len() == 0 {
        lines
    } else if chrome_line(lines.last()) {
        content_lines(lines.drop_last())
    } else {
        content_lines(lines.drop_last()).push(lines.last())
    }
}

/// The first line that is not a marker, if any.
pub open spec fn first_non_marker(lines: Seq<Seq<char>>) -> Option<Seq<char>>
    decreases lines.len(),
{
    if lines.len() == 0 {
        None
    } else if !marker_line(lines[0]) {
        Some(lines[0])
    } else {
        first_non_marker(lines.drop_first())
    }
}

/// The title among a slide's lines: the first that is not the "Imnul" marker
/// or a counter, else the first line, else empty.
pub open spec fn title_of(lines: Seq<Seq<char>>) -> Seq<char> {
    match first_non_marker(lines) {
        Some(l) => l,
        None => if lines.len() > 0 {
            lines[0]
        } else {
            seq![]
        },
    }
}

fn all_digits_or_slash_exec(s: &Vec<char>) -> (r: bool)
    ensures
        r == all_digits_or_slash(s@),
        r && !s@.contains('/') ==> all_digits(s@),
{
    let mut i: usize = 0;
    while i < s.len()
        invariant
            i <= s.len(),
            forall|j: int| 0 <= j < i ==> is_ascii_digit(#[trigger] s@[j]) || s@[j] == '/',
        decreases s.len() - i,
    {
        let c = s[i];
        if !(('0' <= c && c <= '9') || c == '/') {
            return false;
        }
        i += 1;
    }
    true
}

fn all_digits_exec(s: &Vec<char>) -> (r: bool)
    ensures
        r == all_digits(s@),
{
    let mut i: usize = 0;
    while i < s.len()
        invariant
            i <= s.len(),
            forall|j: int| 0 <= j < i ==> is_ascii_digit(#[trigger] s@[j]),
        decreases s.len() - i,
    {
        let c = s[i];
        if !('0' <= c && c <= '9') {
            return false;
        }
        i += 1;
    }
    true
}

/// True for "Imnul ...", a bare number, or a "N/M" counter like "1/300".
pub fn is_marker(line: &str) -> (r: bool)
    ensures
        r == marker_line(line@),
{
    let l = trimmed_chars(line);
    let marker = vec!['I', 'm', 'n', 'u', 'l'];
    assert(marker@ == imnul());
    starts_with(l.as_slice(), marker.as_slice()) || all_digits_exec(&l) || (contains_char(l.as_slice(), '/')
        && all_digits_or_slash_exec(&l))
}

/// Whether a line is slide chrome.
pub fn is_chrome(line: &str) -> (r: bool)
    ensures
        r == chrome_line(line@),
{
    if is_marker(line) {
        return true;
    }
    let t = trimmed_chars(line);
    let dot = vec!['.'];
    assert(dot@ == seq!['.']);
    let d = strip_suffixes_exec(&t, &dot);
    if d.len() > 0 && all_digits_exec(&d) {
        return true;
    }
    let v = chars_of(line);
    let footer = vec!['I', 'M', 'N', 'U', 'R', 'I', ' ', 'C', 'R', 'E', 'Ș', 'T', 'I', 'N', 'E'];
    assert(footer@ == hymnal_footer());
    contains(v.as_slice(), footer.as_slice())
}

/// Pick the title: first line that is not the "Imnul" marker and not a "N/M"
/// counter, falling back to the first line of any kind.
pub fn pick_title(lines: &Vec<String>) -> (r: String)
    ensures
        r@ == title_of(views(lines@)),
{
    let ghost ls = views(lines@);
    let mut i: usize = 0;
    assert(ls.skip(0) == ls);
    while i < lines.len()
        invariant
            i <= lines.len(),
            ls == views(lines@),
            first_non_marker(ls) == first_non_marker(ls.skip(i as int)),
        decreases lines.len() - i,
    {
        proof {
            assert(ls.skip(i as int)[0] == lines@[i as int]@);
            assert(ls.skip(i as int).drop_first() == ls.skip(i + 1));
        }
        if !is_marker(lines[i].as_str()) {
            return lines[i].clone();
        }
        i += 1;
    }
    proof {
        assert(ls.skip(i as int).len() == 0);
    }
    if lines.len() > 0 {
        lines[0].clone()
    } else {
        String::new()
    }
}

/// The slide text kept from a slide's lines: its content lines joined by
/// newlines.
pub open spec fn slide_text(lines: Seq<Seq<char>>) -> Seq<char> {
    join(content_lines(lines), seq!['\n'])
}

/// Raw text extracted from a single .pptx, before it becomes a HymnEntry.
#[derive(Debug, Clone, PartialEq)]
pub struct ParsedPptx {
    pub number: Option<u32>,
    pub title: String,
    pub body: String,
    /// Text of each slide (content lines joined by `\n`), in slide order.
    pub slides: Vec<String>,
}

/// `p` is the hymn made of the slides whose lines are `slide_lines`, in
/// order: one slide text per slide, the body is the slide texts joined by
/// newlines, and the title is picked from the first slide's lines (slide chrome
/// included, as `pick_title` sees them).
pub open spec fn assembled(p: ParsedPptx, number: Option<u32>, slide_lines: Seq<Seq<Seq<char>>>) -> bool {
    &&& p.number == number
    &&& p.slides.len() == slide_lines.len()
    &&& forall|k: int| 0 <= k < slide_lines.len() ==> (#[trigger] p.slides@[k])@ == slide_text(slide_lines[k])
    &&& p.body@ == join(views(p.slides@), seq!['\n'])
    &&& p.title@ == (if slide_lines.len() > 0 {
        title_of(slide_lines[0])
    } else {
        seq![]
    })
}

/// The views of a sequence of line vectors.
pub open spec fn nested_views(v: Seq<Vec<String>>) -> Seq<Seq<Seq<char>>> {
    v.map_values(|ls: Vec<String>| views(ls@))
}

/// The content lines of a slide.
fn content_lines_exec(lines: &Vec<String>) -> (r: Vec<String>)
    ensures
        views(r@) == content_lines(views(lines@)),
{
    let mut out: Vec<String> = Vec::new();
    let mut i: usize = 0;
    while i < lines.len()
        invariant
            i <= lines.len(),
            views(out@) == content_lines(views(lines@).take(i as int)),
        decreases lines.len() - i,
    {
        proof {
            assert(views(lines@).take(i + 1).drop_last() == views(lines@).take(i as int));
            assert(views(lines@).take(i + 1).last() == lines@[i as int]@);
        }
        if !is_chrome(lines[i].as_str()) {
            let l = lines[i].clone();
            proof {
                assert(views(out@.push(l)) == views(out@).push(l@));
            }
            out.push(l);
        }
        i += 1;
    }
    assert(views(lines@).take(lines.len() as int) == views(lines@));
    out
}

/// Put a hymn together from the lines of its slides, in slide order.
pub fn assemble_pptx(number: Option<u32>, slide_lines: &Vec<Vec<String>>) -> (r: ParsedPptx)
    ensures
        assembled(r, number, nested_views(slide_lines@)),
{
    let ghost sl = nested_views(slide_lines@);
    let mut slides: Vec<String> = Vec::new();
    let mut title = String::new();
    let mut i: usize = 0;
    while i < slide_lines.len()
        invariant
            i <= slide_lines.len(),
            sl == nested_views(slide_lines@),
            slides.len() == i,
            forall|k: int| 0 <= k < i ==> (#[trigger] slides@[k])@ == slide_text(sl[k]),
            i > 0 ==> title@ == title_of(sl[0]),
            i == 0 ==> title@ == Seq::<char>::empty(),
        decreases slide_lines.len() - i,
    {
        if i == 0 {
            title = pick_title(&slide_lines[i]);
            assert(views(slide_lines@[0]@) == sl[0]);
        }
        let kept = content_lines_exec(&slide_lines[i]);
        let text = join_strings(&kept, "\n");
        proof {
            reveal_strlit("\n");
            assert(sl[i as int] == views(slide_lines@[i as int]@));
            assert(views(kept@) == content_lines(sl[i as int]));
            assert("\n"@ == seq!['\n']);
            assert(text@ == join(views(kept@), seq!['\n']));
            assert(text@ == slide_text(sl[i as int]));
        }
        slides.push(text);
        i += 1;
    }
    let body = join_strings(&slides, "\n");
    proof {
        reveal_strlit("\n");
        assert("\n"@ == seq!['\n']);
        if slide_lines.len() == 0 {
            assert(title@ == Seq::<char>::empty());
        }
    }
    ParsedPptx { number, title, body, slides }
}

// ---------------------------------------------------------------------------
// The hymn number, and the whole extraction
// ---------------------------------------------------------------------------

/// Whether every character is '0' (true of the empty text).
pub open spec fn all_zeros(s: Seq<char>) -> bool {
    forall|i: int| 0 <= i < s.len() ==> #[trigger] s[i] == '0'
}

/// The hymn number a file stem gives: the stem without leading zeros, read
/// as a number; a stem of zeros only is 0.
pub open spec fn number_from_stem(stem: Option<Seq<char>>) -> Option<u32> {
    match stem {
        None => None,
        Some(s) => match parse_u32_spec(strip_prefixes(s, seq!['0'])) {
            Some(n) => Some(n),
            None => if all_zeros(s) {
                Some(0)
            } else {
                None
            },
        },
    }
}

fn all_zeros_exec(v: &Vec<char>) -> (r: bool)
    ensures
        r == all_zeros(v@),
{
    let mut i: usize = 0;
    while i < v.len()
        invariant
            i <= v.len(),
            forall|j: int| 0 <= j < i ==> #[trigger] v@[j] == '0',
        decreases v.len() - i,
    {
        if v[i] != '0' {
            return false;
        }
        i += 1;
    }
    true
}

/// The text of an optional file stem.
pub open spec fn stem_text(stem: Option<&str>) -> Option<Seq<char>> {
    match stem {
        Some(s) => Some(s@),
        None => None,
    }
}

/// The hymn number from the filename stem (authoritative; the in-slide
/// "Imnul N" text is unreliably split across XML runs).
pub fn pptx_number(stem: Option<&str>) -> (r: Option<u32>)
    ensures
        r == number_from_stem(stem_text(stem)),
{
    match stem {
        None => None,
        Some(s) => {
            let v = chars_of(s);
            let zero = vec!['0'];
            assert(zero@ == seq!['0']);
            let t = strip_prefixes_exec(&v, &zero);
            match parse_u32(t.as_slice()) {
                Some(n) => Some(n),
                None => if all_zeros_exec(&v) {
                    Some(0)
                } else {
                    None
                },
            }
        },
    }
}

/// The names of the entries zip can open, in the archive's order.
pub open spec fn opened_names(entries: Seq<Option<Seq<char>>>) -> Seq<Seq<char>>
    decreases entries.len(),
{
    if entries.len() == 0 {
        seq![]
    } else {
        match entries.last() {
            Some(n) => opened_names(entries.drop_last()).push(n),
            None => opened_names(entries.drop_last()),
        }
    }
}

/// `ord` lists the positions of the slide entries among `names`, each once,
/// in slide order (by slide index, then by position).
pub open spec fn is_slide_order(names: Seq<Seq<char>>, ord: Seq<usize>) -> bool {
    &&& forall|k: int| 0 <= k < ord.len() ==> (#[trigger] ord[k]) < names.len() && is_slide_entry(names[ord[k] as int])
    &&& forall|i: int| 0 <= i < names.len() && is_slide_entry(#[trigger] names[i]) ==> ord.contains(i as usize)
    &&& forall|j: int, k: int| 0 <= j < k < ord.len() ==> slide_before(names, ord[j] as int, ord[k] as int)
}

/// The names of the slide entries among `names`, in slide order.
pub open spec fn slide_sequence(names: Seq<Seq<char>>) -> Seq<Seq<char>> {
    let ord = choose|o: Seq<usize>| is_slide_order(names, o);
    ord.map_values(|i: usize| names[i as int])
}

/// There is one slide order only: two orders of the same entries are equal.
pub proof fn slide_order_is_unique(names: Seq<Seq<char>>, o1: Seq<usize>, o2: Seq<usize>)
    requires
        is_slide_order(names, o1),
        is_slide_order(names, o2),
    ensures
        o1 == o2,
{
    assert forall|x: usize| o1.contains(x) <==> o2.contains(x) by {
        if o1.contains(x) {
            let k = choose|k: int| 0 <= k < o1.len() && o1[k] == x;
            assert(is_slide_entry(names[o1[k] as int]));
        }
        if o2.contains(x) {
            let k = choose|k: int| 0 <= k < o2.len() && o2[k] == x;
            assert(is_slide_entry(names[o2[k] as int]));
        }
    }
    lemma_sorted_same_members(names, o1, o2);
}

proof fn lemma_sorted_same_members(names: Seq<Seq<char>>, o1: Seq<usize>, o2: Seq<usize>)
    requires
        forall|j: int, k: int| 0 <= j < k < o1.len() ==> slide_before(names, o1[j] as int, o1[k] as int),
        forall|j: int, k: int| 0 <= j < k < o2.len() ==> slide_before(names, o2[j] as int, o2[k] as int),
        forall|x: usize| o1.contains(x) <==> o2.contains(x),
    ensures
        o1 == o2,
    decreases o1.len(),
{
    if o1.len() == 0 {
        if o2.len() > 0 {
            assert(o2.contains(o2[0]));
            assert(o1.contains(o2[0]));
        }
        assert(o1 =~= o2);
    } else {
        let a = o1[0];
        assert(o1.contains(a));
        assert(o2.contains(a));
        let b = o2[0];
        if a != b {
            assert(o2.contains(b));
            assert(o1.contains(b));
            let kb = choose|k: int| 0 <= k < o1.len() && o1[k] == b;
            let ja = choose|k: int| 0 <= k < o2.len() && o2[k] == a;
            assert(kb > 0);
            assert(ja > 0);
            assert(slide_before(names, a as int, b as int));
            assert(slide_before(names, b as int, a as int));
            assert(false);
        }
        let r1 = o1.drop_first();
        let r2 = o2.drop_first();
        assert forall|x: usize| r1.contains(x) <==> r2.contains(x) by {
            if r1.contains(x) {
                let k = choose|k: int| 0 <= k < r1.len() && r1[k] == x;
                assert(o1[k + 1] == x);
                assert(slide_before(names, a as int, x as int));
                assert(o1.contains(x));
                let m = choose|m: int| 0 <= m < o2.len() && o2[m] == x;
                assert(m != 0);
                assert(r2[m - 1] == x);
            }
            if r2.contains(x) {
                let k = choose|k: int| 0 <= k < r2.len() && r2[k] == x;
                assert(o2[k + 1] == x);
                assert(slide_before(names, a as int, x as int));
                assert(o2.contains(x));
                let m = choose|m: int| 0 <= m < o1.len() && o1[m] == x;
                assert(m != 0);
                assert(r1[m - 1] == x);
            }
        }
        assert forall|j: int, k: int| 0 <= j < k < r1.len() implies slide_before(names, r1[j] as int, r1[k] as int) by {
            assert(r1[j] == o1[j + 1] && r1[k] == o1[k + 1]);
        }
        assert forall|j: int, k: int| 0 <= j < k < r2.len() implies slide_before(names, r2[j] as int, r2[k] as int) by {
            assert(r2[j] == o2[j + 1] && r2[k] == o2[k + 1]);
        }
        lemma_sorted_same_members(names, r1, r2);
        assert(o1 =~= seq![a] + r1);
        assert(o2 =~= seq![b] + r2);
    }
}

/// The lines of each of the named slides of the archive in `bytes`, read
/// in order: the first entry whose text cannot be read makes it a `Zip`
/// failure, the first whose XML cannot be read an `Xml` one.
pub open spec fn read_slides(bytes: Seq<u8>, names: Seq<Seq<char>>) -> Result<Seq<Seq<Seq<char>>>, PptxError>
    decreases names.len(),
{
    if names.len() == 0 {
        Ok(seq![])
    } else {
        match read_slides(bytes, names.drop_last()) {
            Err(e) => Err(e),
            Ok(prev) => match zip_archive_text(bytes, names.last()) {
                None => Err(PptxError::Zip),
                Some(t) => match slide_lines_of(t) {
                    None => Err(PptxError::Xml),
                    Some(ls) => Ok(prev.push(ls)),
                },
            },
        }
    }
}

/// The lines of every slide of the .pptx in `bytes`, in slide order: a
/// `Zip` failure when the bytes are no archive.
pub open spec fn pptx_slides(bytes: Seq<u8>) -> Result<Seq<Seq<Seq<char>>>, PptxError> {
    match zip_archive_names(bytes) {
        None => Err(PptxError::Zip),
        Some(entries) => read_slides(bytes, slide_sequence(opened_names(entries))),
    }
}

proof fn lemma_read_slides_stays_failed(bytes: Seq<u8>, names: Seq<Seq<char>>, k: int)
    requires
        0 <= k <= names.len(),
        read_slides(bytes, names.take(k)) is Err,
    ensures
        read_slides(bytes, names) == read_slides(bytes, names.take(k)),
    decreases names.len() - k,
{
    if k < names.len() {
        assert(names.take(k + 1).drop_last() == names.take(k));
        lemma_read_slides_stays_failed(bytes, names, k + 1);
    } else {
        assert(names.take(k) == names);
    }
}

/// Extract searchable text from the bytes of a .pptx file whose file stem is
/// `stem`.
///
/// The number is taken from the filename stem. The slides are the archive's
/// `ppt/slides/slideN.xml` entries in slide-index order; the title is the
/// first meaningful line of the first slide. The body is all slide text.
pub fn extract_from_bytes(stem: Option<&str>, bytes: Vec<u8>) -> (r: Result<ParsedPptx, PptxError>)
    ensures
        match r {
            Ok(p) => pptx_slides(bytes@) matches Ok(sl) && assembled(p, number_from_stem(stem_text(stem)), sl),
            Err(e) => pptx_slides(bytes@) == Err::<Seq<Seq<Seq<char>>>, PptxError>(e),
        },
{
    let number = pptx_number(stem);
    let ghost b = bytes@;
    let mut zip = match zip_open(bytes) {
        Ok(z) => z,
        Err(_) => return Err(PptxError::Zip),
    };
    let ghost entries = zip_entry_names(zip);
    let n = zip_len(&zip);
    let mut names: Vec<String> = Vec::new();
    let mut i: usize = 0;
    assert(entries.take(0) == Seq::<Option<Seq<char>>>::empty());
    while i < n
        invariant
            i <= n == entries.len(),
            entries == zip_entry_names(zip),
            zip_archive_names(b) == Some(entries),
            forall|t: Seq<char>| #[trigger] zip_entry_text(zip, t) == zip_archive_text(b, t),
            views(names@) == opened_names(entries.take(i as int)),
            b == bytes@,
        decreases n - i,
    {
        let got = zip_name_at(&mut zip, i);
        proof {
            assert(entries.take(i + 1).drop_last() == entries.take(i as int));
            assert(entries.take(i + 1).last() == entries[i as int]);
        }
        match got {
            Some(name) => {
                proof {
                    assert(views(names@.push(name)) == views(names@).push(name@));
                }
                names.push(name);
            },
            None => {},
        }
        i += 1;
    }
    assert(entries.take(n as int) == entries);
    let ghost ns = views(names@);
    let order = slide_order(&names);
    let ghost sseq = order@.map_values(|j: usize| ns[j as int]);
    proof {
        let chosen = choose|o: Seq<usize>| is_slide_order(ns, o);
        slide_order_is_unique(ns, order@, chosen);
        assert(slide_sequence(ns) == sseq);
    }
    let mut slide_lines: Vec<Vec<String>> = Vec::new();
    let mut k: usize = 0;
    assert(sseq.take(0) == Seq::<Seq<char>>::empty());
    assert(nested_views(slide_lines@) == Seq::<Seq<Seq<char>>>::empty());
    while k < order.len()
        invariant
            k <= order.len() == sseq.len(),
            is_slide_order(ns, order@),
            ns == views(names@),
            sseq == order@.map_values(|j: usize| ns[j as int]),
            forall|t: Seq<char>| #[trigger] zip_entry_text(zip, t) == zip_archive_text(b, t),
            read_slides(b, sseq.take(k as int)) == Ok::<Seq<Seq<Seq<char>>>, PptxError>(nested_views(slide_lines@)),
            zip_archive_names(b) == Some(entries),
            ns == opened_names(entries),
            slide_sequence(ns) == sseq,
            b == bytes@,
            number == number_from_stem(stem_text(stem)),
        decreases order.len() - k,
    {
        let name = &names[order[k]];
        proof {
            assert(sseq[k as int] == name@);
            assert(sseq.take(k + 1).drop_last() == sseq.take(k as int));
            assert(sseq.take(k + 1).last() == name@);
        }
        let xml = match zip_read_text(&mut zip, name.as_str()) {
            Ok(t) => t,
            Err(_) => {
                proof {
                    lemma_read_slides_stays_failed(b, sseq, k + 1);
                }
                return Err(PptxError::Zip);
            },
        };
        let lines = match slide_text_lines(xml.as_str()) {
            Ok(l) => l,
            Err(e) => {
                proof {
                    lemma_read_slides_stays_failed(b, sseq, k + 1);
                }
                return Err(e);
            },
        };
        proof {
            assert(nested_views(slide_lines@.push(lines)) == nested_views(slide_lines@).push(views(lines@)));
        }
        slide_lines.push(lines);
        k += 1;
    }
    assert(sseq.take(sseq.len() as int) == sseq);
    let p = assemble_pptx(number, &slide_lines);
    Ok(p)
}

/// Extract searchable text from the bytes of the .pptx file at `path`: the
/// number comes from the path's file stem.
pub fn extract_from_file(path: &str, bytes: Vec<u8>) -> (r: Result<ParsedPptx, PptxError>)
    ensures
        match r {
            Ok(p) => pptx_slides(bytes@) matches Ok(sl) && assembled(p, number_from_stem(path_file_stem(path@)), sl),
            Err(e) => pptx_slides(bytes@) == Err::<Seq<Seq<Seq<char>>>, PptxError>(e),
        },
{
    let stem = file_stem_of(path);
    match stem {
        Some(s) => extract_from_bytes(Some(s.as_str()), bytes),
        None => extract_from_bytes(None, bytes),
    }
}

/// The title is a line of the first slide, and never the "Imnul" marker or
/// a counter whenever the slide has another line: it is the first line that
/// is not such a marker.
pub proof fn title_is_never_a_marker(lines: Seq<Seq<char>>)
    requires
        exists|i: int| 0 <= i < lines.len() && !marker_line(#[trigger] lines[i]),
    ensures
        !marker_line(title_of(lines)),
        lines.contains(title_of(lines)),
{
    lemma_first_non_marker_found(lines);
    lemma_first_non_marker_in(lines);
}

proof fn lemma_first_non_marker_found(lines: Seq<Seq<char>>)
    requires
        exists|i: int| 0 <= i < lines.len() && !marker_line(#[trigger] lines[i]),
    ensures
        first_non_marker(lines) matches Some(l) && !marker_line(l),
    decreases lines.len(),
{
    if marker_line(lines[0]) {
        let i = choose|i: int| 0 <= i < lines.len() && !marker_line(#[trigger] lines[i]);
        assert(i > 0);
        assert(lines.drop_first()[i - 1] == lines[i]);
        lemma_first_non_marker_found(lines.drop_first());
    }
}

proof fn lemma_first_non_marker_in(lines: Seq<Seq<char>>)
    ensures
        first_non_marker(lines) matches Some(l) ==> lines.contains(l),
    decreases lines.len(),
{
    if lines.len() > 0 && marker_line(lines[0]) {
        lemma_first_non_marker_in(lines.drop_first());
        if let Some(l) = first_non_marker(lines.drop_first()) {
            let i = choose|i: int| 0 <= i < lines.drop_first().len() && lines.drop_first()[i] == l;
            assert(lines[i + 1] == l);
        }
    } else if lines.len() > 0 {
        assert(lines[0] == lines[0]);
    }
}

/// No chrome line survives into slide text: every content line is a line of
/// the slide that is not chrome.
pub proof fn lemma_content_lines_not_chrome(lines: Seq<Seq<char>>)
    ensures
        forall|i: int| 0 <= i < content_lines(lines).len() ==> !chrome_line(#[trigger] content_lines(lines)[i])
            && lines.contains(content_lines(lines)[i]),
    decreases lines.len(),
{
    if lines.len() > 0 {
        lemma_content_lines_not_chrome(lines.drop_last());
        let c = content_lines(lines);
        let p = content_lines(lines.drop_last());
        assert forall|i: int| 0 <= i < c.len() implies !chrome_line(#[trigger] c[i]) && lines.contains(c[i]) by {
            if i < p.len() {
                assert(c[i] == p[i]);
                let j = choose|j: int| 0 <= j < lines.drop_last().len() && lines.drop_last()[j] == p[i];
                assert(lines[j] == p[i]);
            } else {
                assert(c[i] == lines.last());
                assert(lines[lines.len() - 1] == lines.last());
            }
        }
    }
}

} // verus!
