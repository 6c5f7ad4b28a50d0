use hymnal_core::library::{Config, Library};
use hymnal_core::model::HymnEntry;
use hymnal_core::present::PresentationState;
use hymnal_core::i18n::Language;
use hymnal_core::theme::HAlign;
use hymnal_core::ui::{
    active_theme_index, boot_language, control_view, default_display_index, displays_from, h_align_text, ScreenInfo, families, family_index, fill3, fill_every_placeholder,
    fill_first_placeholder, library_rows, row_label, slide_preview, weight_at, weight_index,
    weight_options, Display,
};

fn display(index: i32, primary: bool) -> Display {
    Display { index, label: format!("D{index}"), x: 0, y: 0, is_primary: primary }
}

#[test]
fn fill3_fills_placeholders_in_order() {
    assert_eq!(fill3("{} - {}/{}", "Title", "2", "5"), "Title - 2/5");
    assert_eq!(fill3("{}", "a", "b", "c"), "a");
    assert_eq!(fill3("none", "a", "b", "c"), "none");
    assert_eq!(fill_first_placeholder("x{}y{}", "1"), "x1y{}");
    assert_eq!(fill_every_placeholder("{} and {}", "T"), "T and T");
}

#[test]
fn fill3_fills_only_the_placeholders_of_the_format() {
    assert_eq!(fill3("{} — slide {}/{}", "Ca un cerb setos de ape", "3", "12"), "Ca un cerb setos de ape — slide 3/12");
    assert_eq!(fill3("{}|{}|{}", "{}", "B", "C"), "{}|B|C");
    assert_eq!(fill3("{{}}", "X", "Y", "Z"), "{X}");
    assert_eq!(fill3("{} {} {} {}", "a", "b", "c"), "a b c {}");
    for fmt in ["{}{}{}", "a{b}c{}", "}{"] {
        assert_eq!(fill_every_placeholder(fmt, "Q"), fmt.replace("{}", "Q"), "{:?}", fmt);
    }
}

#[test]
fn finder_row_shows_number_title_and_library() {
    let mut e = HymnEntry {
        number: Some("150".into()),
        title: "Cerul, pământul".into(),
        body: String::new(),
        slides: vec![],
        path: "/x/150.pptx".into(),
        library: "Imnuri".into(),
        mtime: 0,
    };
    assert_eq!(row_label(&e), "150  Cerul, pământul  · Imnuri");
    e.number = None;
    assert_eq!(row_label(&e), "Cerul, pământul  · Imnuri");
}

#[test]
fn weights_round_trip_through_the_dropdown() {
    let options = weight_options();
    assert_eq!(options.len(), 5);
    for (i, (_, w)) in options.iter().enumerate() {
        assert_eq!(weight_index(*w), i as i32);
        assert_eq!(weight_at(i as i32), *w);
    }
    assert_eq!(weight_index(650), 3);
    assert_eq!(weight_at(-1), 300);
    assert_eq!(weight_at(9), 400);
    assert_eq!(options[3].0, "Bold");
}

#[test]
fn family_index_ignores_ascii_case() {
    let fams = vec!["serif".to_string(), "Georgia".to_string(), "georgia".to_string()];
    assert_eq!(family_index(&fams, "GEORGIA"), 1);
    assert_eq!(family_index(&fams, "Comic"), 0);
}

#[test]
fn default_display_prefers_a_secondary_screen() {
    assert_eq!(default_display_index(&vec![display(0, true), display(1, false), display(2, false)]), 1);
    assert_eq!(default_display_index(&vec![display(4, true)]), 4);
    assert_eq!(default_display_index(&vec![]), 0);
}

#[test]
fn families_start_curated_without_repeats() {
    let f = families(vec!["arial".into(), "Noto Sans".into(), "noto sans".into(), "Zapf".into()]);
    assert_eq!(
        f,
        vec![
            "sans-serif", "serif", "monospace", "Arial", "Helvetica", "Times New Roman", "Georgia",
            "Verdana", "Noto Sans", "Zapf",
        ]
    );
    assert_eq!(families(vec![]).len(), 8);
}

#[test]
fn library_rows_mirror_the_config() {
    let mut cfg = Config::default();
    cfg.libraries.push(Library { name: "D".into(), path: "/d".into(), enabled: false, managed_by_git: true });
    cfg.libraries.push(Library { name: "U".into(), path: "/no/such/u".into(), enabled: true, managed_by_git: false });
    let rows = library_rows(&cfg);
    assert_eq!(rows.len(), 2);
    assert_eq!(rows[0].name, "D");
    assert!(!rows[0].removable && !rows[0].enabled);
    assert!(rows[1].removable && !rows[1].available);
}

#[test]
fn library_rows_show_the_builtin_library_before_it_is_saved() {
    let mut cfg = Config::default();
    cfg.libraries.push(Library { name: "U".into(), path: "/u".into(), enabled: true, managed_by_git: false });
    let rows = library_rows(&cfg);
    assert!(rows.len() == 1 || rows.len() == 2);
    if rows.len() == 2 {
        assert!(!rows[0].removable);
        assert_eq!(rows[1].name, "U");
    }
}

#[test]
fn control_view_mirrors_the_presentation() {
    let mut p = PresentationState::default();
    let empty = control_view(&p);
    assert_eq!(empty.title, "");
    assert_eq!(empty.position, "");
    p.load_hymn(Some("150".into()), "Cerul".into(), vec!["a".into(), "b".into()]);
    let v = control_view(&p);
    assert_eq!(v.title, "150. Cerul");
    assert_eq!(v.live, "a");
    assert_eq!(v.next, "b");
    assert_eq!(v.position, "1/2");
    p.next();
    p.toggle_blank();
    let v = control_view(&p);
    assert_eq!(v.next, "");
    assert_eq!(v.position, "2/2");
    assert!(v.blank);
}

#[test]
fn slide_preview_clamps_and_formats() {
    let slides: Vec<String> = vec!["one".into(), "two".into(), "three".into()];
    let p = slide_preview("{} has no slides", "{} — {}/{}", Some("7"), "Laudă", &slides, 5);
    assert_eq!(p.text, "three");
    assert_eq!(p.count, 3);
    assert_eq!(p.index, 2);
    assert_eq!(p.status, "7. Laudă — 3/3");
    let q = slide_preview("{} has no slides", "{} — {}/{}", None, "Laudă", &slides, -4);
    assert_eq!(q.index, 0);
    assert_eq!(q.status, "Laudă — 1/3");
    let z = slide_preview("{}: {}", "{}", None, "T", &vec![], 0);
    assert_eq!(z.count, 0);
    assert_eq!(z.text, "");
    assert_eq!(z.status, "T: T");
}

#[test]
fn boot_language_prefers_the_saved_choice() {
    assert_eq!(boot_language(Some("ro"), Some("it_IT")), Language::Ro);
    assert_eq!(boot_language(Some("xx"), Some("it_IT")), Language::En);
    assert_eq!(boot_language(None, Some("it_IT.UTF-8")), Language::It);
    assert_eq!(boot_language(None, None), Language::En);
}

#[test]
fn active_theme_is_found_by_name() {
    let names = vec!["Default".to_string(), "Christmas".to_string(), "Easter".to_string()];
    assert_eq!(active_theme_index(&names, "Easter"), 2);
    assert_eq!(active_theme_index(&names, "Gone"), 0);
}

#[test]
fn alignment_names() {
    assert_eq!(h_align_text(HAlign::Left), "left");
    assert_eq!(h_align_text(HAlign::Center), "center");
    assert_eq!(h_align_text(HAlign::Right), "right");
}

#[test]
fn displays_are_numbered_and_never_empty() {
    let screens = vec![
        ScreenInfo { name: "Built-in".into(), width: 1920, height: 1080, x: 0, y: 0, is_primary: true },
        ScreenInfo { name: "HDMI".into(), width: 1280, height: 720, x: 1920, y: 0, is_primary: false },
    ];
    let d = displays_from(Some(screens));
    assert_eq!(d.len(), 2);
    assert_eq!(d[1].index, 1);
    assert_eq!(d[1].label, "HDMI (1280x720)");
    assert_eq!(d[1].x, 1920);
    assert_eq!(default_display_index(&d), 1);
    for none in [None, Some(vec![])] {
        let d = displays_from(none);
        assert_eq!(d.len(), 1);
        assert_eq!(d[0].label, "Primary");
        assert!(d[0].is_primary);
    }
}
