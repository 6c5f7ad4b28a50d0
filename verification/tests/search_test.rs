use hymnal_core::model::{HymnEntry, MatchField};
use hymnal_core::search::{number_sort_key, Searcher};

fn entry(n: &str, title: &str, body: &str) -> HymnEntry {
    HymnEntry {
        number: Some(n.into()),
        title: title.into(),
        body: body.into(),
        slides: vec![],
        path: format!("/x/{n}.pptx"),
        library: "L".into(),
        mtime: 0,
    }
}

fn sample() -> Searcher {
    Searcher::new(vec![
        entry("150", "Cerul, pământul", "Cerul, pământul și marea"),
        entry("1", "Plecaţi-vă, popoare", "Popoare, veniţi"),
        entry("2", "Laudă", "Doamne, Tu eşti"),
    ])
}

#[test]
fn lettered_number_sorts_numerically_then_by_suffix() {
    let mk = |n: &str| HymnEntry {
        number: Some(n.into()),
        title: format!("hymn {n}"),
        body: String::new(),
        slides: vec![],
        path: format!("/x/{n}.pptx"),
        library: "L".into(),
        mtime: 0,
    };
    let s = Searcher::new(vec![mk("665"), mk("664b"), mk("70"), mk("664"), mk("664a")]);
    let order: Vec<String> = s
        .search("")
        .into_iter()
        .map(|h| h.entry.number.clone().unwrap())
        .collect();
    assert_eq!(order, vec!["70", "664", "664a", "664b", "665"]);
    assert_eq!(s.search("").first().unwrap().field, MatchField::Number);
}

#[test]
fn matches_title_without_diacritics() {
    let s = sample();
    let hits = s.search("plecati");
    assert!(!hits.is_empty());
    assert_eq!(hits[0].entry.number.as_deref(), Some("1"));
}

#[test]
fn matches_by_exact_number() {
    let s = sample();
    let hits = s.search("150");
    assert_eq!(hits[0].entry.number.as_deref(), Some("150"));
    assert_eq!(hits[0].field, MatchField::Number);
}

#[test]
fn matches_body_text_of_a_hymn() {
    let s = sample();
    let hits = s.search("Popoare");
    assert!(hits.iter().any(|h| h.entry.number.as_deref() == Some("1")));
}

#[test]
fn blank_query_lists_everything_by_number() {
    let s = sample();
    let hits = s.search("   ");
    let order: Vec<&str> = hits.iter().map(|h| h.entry.number.as_deref().unwrap()).collect();
    assert_eq!(order, vec!["1", "2", "150"]);
    assert!(hits.iter().all(|h| h.score == 0));
}

#[test]
fn hits_point_back_into_the_searcher() {
    let s = sample();
    assert_eq!(s.len(), 3);
    assert!(!s.is_empty());
    for h in s.search("cerul") {
        assert_eq!(s.entry(h.index), Some(h.entry));
    }
    assert!(s.entry(3).is_none());
    assert!(Searcher::new(vec![]).is_empty());
}

#[test]
fn sort_keys_of_numbers() {
    assert_eq!(number_sort_key(Some("664b")), (664, "b".to_string()));
    assert_eq!(number_sort_key(Some("70")), (70, String::new()));
    assert_eq!(number_sort_key(None).0, u32::MAX);
}
