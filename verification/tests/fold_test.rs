use hymnal_core::fold::fold;

#[test]
fn folds_romanian_diacritics_and_lowercases() {
    assert_eq!(fold("Plecaţi-vă"), "plecati-va");
    assert_eq!(fold("Cunoaşteţi"), "cunoasteti");
    assert_eq!(fold("ÎNÂ ȘȚ"), "ina st");
}

#[test]
fn leaves_plain_ascii_untouched() {
    assert_eq!(fold("Imnul 150"), "imnul 150");
}

#[test]
fn folding_distributes_over_concatenation() {
    let a = "Ţara ";
    let b = "SFÂNTĂ";
    assert_eq!(fold(&format!("{a}{b}")), format!("{}{}", fold(a), fold(b)));
}

#[test]
fn folding_twice_changes_nothing_more() {
    let once = fold("Îngerii Cântă ŞI ţin");
    assert_eq!(fold(&once), once);
}

#[test]
fn capital_accented_letters_fold_to_ascii() {
    assert_eq!(fold("ÀÁÍÌÈÊÔÖÜÛ"), "aaiieeoouu");
    assert_eq!(fold("ăâàáîíìșşțţéèêóôöúüû"), "aaaaiiisstteeeooouuu");
}

#[test]
fn folded_text_holds_no_listed_diacritic() {
    let listed = "ăâàáîíìșşțţéèêóôöúüûĂÂÀÁÎÍÌȘŞȚŢÉÈÊÓÔÖÚÜÛ";
    let input = format!("Cântare {} — Ægir ŒUVRE İstanbul", listed);
    let out = fold(&input);
    for c in listed.chars() {
        assert!(!out.contains(c), "{} survived folding", c);
    }
    assert!(out.starts_with("cantare "));
}
