use hymnal_core::pptx::{
    extract_from_bytes, extract_from_file, is_chrome, is_marker, is_slide_entry_name, pick_title, pptx_number,
    slide_index, slide_order, slide_text_lines, PptxError,
};
use std::io::Write;

fn slide_xml(paragraphs: &[&[&str]]) -> String {
    let mut xml = String::from(
        "<?xml version=\"1.0\" encoding=\"UTF-8\"?><p:sld xmlns:a=\"a\" xmlns:p=\"p\"><p:cSld><p:spTree><p:sp><p:txBody>",
    );
    for runs in paragraphs {
        xml.push_str("<a:p>");
        for run in *runs {
            xml.push_str("<a:r><a:t>");
            xml.push_str(run);
            xml.push_str("</a:t></a:r>");
        }
        xml.push_str("</a:p>");
    }
    xml.push_str("</p:txBody></p:sp></p:spTree></p:cSld></p:sld>");
    xml
}

fn pptx(entries: &[(&str, String)]) -> Vec<u8> {
    let mut w = zip::ZipWriter::new(std::io::Cursor::new(Vec::new()));
    for (name, text) in entries {
        w.start_file(*name, zip::write::SimpleFileOptions::default()).unwrap();
        w.write_all(text.as_bytes()).unwrap();
    }
    w.finish().unwrap().into_inner()
}

#[test]
fn extracts_number_title_body_and_slides() {
    let bytes = pptx(&[
        ("ppt/slides/slide2.xml", slide_xml(&[&["Popoare, veniţi"], &["2"]])),
        ("ppt/slides/slide1.xml", slide_xml(&[&["Imnul 1"], &["Plecaţi-vă, ", "popoare"], &["1/300"]])),
        ("ppt/presentation.xml", String::from("<p:presentation/>")),
        ("ppt/slides/slide10.xml", slide_xml(&[&["IMNURI CREȘTINE"], &["Amin"]])),
    ]);
    let p = extract_from_bytes(Some("001"), bytes).unwrap();
    assert_eq!(p.number, Some(1));
    assert_eq!(p.title, "Plecaţi-vă, popoare");
    assert_eq!(p.slides, vec!["Plecaţi-vă, popoare".to_string(), "Popoare, veniţi".to_string(), "Amin".to_string()]);
    assert_eq!(p.body, "Plecaţi-vă, popoare\nPopoare, veniţi\nAmin");
}

#[test]
fn unreadable_archive_is_a_zip_error() {
    assert_eq!(extract_from_bytes(Some("5"), b"not a zip".to_vec()), Err(PptxError::Zip));
}

#[test]
fn malformed_slide_is_an_xml_error() {
    let bytes = pptx(&[("ppt/slides/slide1.xml", String::from("<a:p><a:t>x &bogus; y</a:t></a:p>"))]);
    assert_eq!(extract_from_bytes(Some("5"), bytes), Err(PptxError::Xml));
}

#[test]
fn numbers_come_from_the_file_stem() {
    assert_eq!(pptx_number(Some("150")), Some(150));
    assert_eq!(pptx_number(Some("007")), Some(7));
    assert_eq!(pptx_number(Some("000")), Some(0));
    assert_eq!(pptx_number(Some("664b")), None);
    assert_eq!(pptx_number(None), None);
}

#[test]
fn slide_entries_and_their_order() {
    assert_eq!(slide_index("ppt/slides/slide12.xml"), 12);
    assert_eq!(slide_index("ppt/slides/slideX.xml"), u32::MAX);
    assert!(is_slide_entry_name("ppt/slides/slide3.xml"));
    assert!(!is_slide_entry_name("ppt/slides/_rels/slide3.xml.rels"));
    let names: Vec<String> = vec![
        "ppt/slides/slide10.xml".into(),
        "docProps/app.xml".into(),
        "ppt/slides/slide2.xml".into(),
        "ppt/slides/slide1.xml".into(),
    ];
    assert_eq!(slide_order(&names), vec![3, 2, 0]);
}

#[test]
fn slide_lines_join_runs_within_a_paragraph() {
    let lines = slide_text_lines(&slide_xml(&[&["Ple", "caţi"], &["  "], &["a &amp; b"]])).unwrap();
    assert_eq!(lines, vec!["Plecaţi".to_string(), "a & b".to_string()]);
}

#[test]
fn markers_chrome_and_titles() {
    assert!(is_marker("Imnul 150"));
    assert!(is_marker(" 12 "));
    assert!(is_marker("1/300"));
    assert!(!is_marker("1. Cerul"));
    assert!(is_chrome("3."));
    assert!(is_chrome("IMNURI CREȘTINE - 2020"));
    assert!(!is_chrome("Cerul, pământul"));
    let lines: Vec<String> = vec!["Imnul 5".into(), "1/3".into(), "Laudă".into()];
    assert_eq!(pick_title(&lines), "Laudă");
    let only: Vec<String> = vec!["Imnul 5".into()];
    assert_eq!(pick_title(&only), "Imnul 5");
    assert_eq!(pick_title(&vec![]), "");
}

#[test]
fn title_comes_from_the_raw_first_slide_lines() {
    let only_marker = pptx(&[
        ("ppt/slides/slide1.xml", slide_xml(&[&["Imnul 7"]])),
        ("ppt/slides/slide2.xml", slide_xml(&[&["Laudă"]])),
    ]);
    let p = extract_from_file("/lib/007.pptx", only_marker).unwrap();
    assert_eq!(p.number, Some(7));
    assert_eq!(p.title, "Imnul 7");
    assert_eq!(p.slides, vec!["".to_string(), "Laudă".to_string()]);
    let footer_first = pptx(&[("ppt/slides/slide1.xml", slide_xml(&[&["IMNURI CREȘTINE"], &["Cerul"]]))]);
    let q = extract_from_file("/lib/no-number.pptx", footer_first).unwrap();
    assert_eq!(q.number, None);
    assert_eq!(q.title, "IMNURI CREȘTINE");
    assert_eq!(q.slides, vec!["Cerul".to_string()]);
}
