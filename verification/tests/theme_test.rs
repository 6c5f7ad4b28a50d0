use hymnal_core::theme::store::{check_delete, check_save, file_stem, is_builtin_default_name, is_theme_file, theme_file_name, ThemeStoreError};
use hymnal_core::theme::Rgba;

#[test]
fn hex_formats_uppercase_without_alpha() {
    assert_eq!(Rgba::new(255, 0, 171, 10).to_hex(), "#FF00AB");
    assert_eq!(Rgba::new(0, 0, 0, 255).to_hex(), "#000000");
}

#[test]
fn hex_parses_with_or_without_hash() {
    assert_eq!(Rgba::from_hex("#ff00ab"), Some(Rgba::new(255, 0, 171, 255)));
    assert_eq!(Rgba::from_hex("FF00AB"), Some(Rgba::new(255, 0, 171, 255)));
    assert_eq!(Rgba::from_hex("#FF00A"), None);
    assert_eq!(Rgba::from_hex("#GG00AB"), None);
    assert_eq!(Rgba::from_hex("##FF00AB"), None);
    assert_eq!(Rgba::from_hex(""), None);
}

#[test]
fn hex_round_trips() {
    for c in [Rgba::new(1, 2, 3, 255), Rgba::new(200, 100, 50, 255), Rgba::new(18, 52, 86, 7)] {
        let back = Rgba::from_hex(&c.to_hex()).unwrap();
        assert_eq!((back.r, back.g, back.b, back.a), (c.r, c.g, c.b, 255));
        assert_eq!(back.to_hex(), c.to_hex());
    }
}

#[test]
fn theme_names_become_safe_file_names() {
    assert_eq!(file_stem("Crăciun 2024"), "Crăciun 2024");
    assert_eq!(file_stem("a/b\\c.d"), "a_b_c_d");
    assert_eq!(file_stem(&file_stem("x:y")), file_stem("x:y"));
    assert_eq!(theme_file_name("Easter"), "Easter.json");
}

#[test]
fn cannot_save_or_delete_the_builtin_default() {
    assert!(is_builtin_default_name("Default"));
    assert!(!is_builtin_default_name("default"));
    assert_eq!(check_save("Default"), Err(ThemeStoreError::SaveDefault));
    assert_eq!(check_delete("Default"), Err(ThemeStoreError::DeleteDefault));
    assert_eq!(check_save("Christmas"), Ok(()));
    assert_eq!(check_delete("Christmas"), Ok(()));
}

#[test]
fn only_json_files_hold_themes() {
    assert!(is_theme_file("/t/Easter.json"));
    assert!(!is_theme_file("/t/Easter.json.bak"));
    assert!(!is_theme_file("/t/README"));
    assert!(!is_theme_file("/t/.json"));
    assert!(is_theme_file("/t/a.b.json"));
}
