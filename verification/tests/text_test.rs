use hymnal_core::text::{is_blank, trimmed_string};

#[test]
fn trimming_agrees_with_std_on_every_whitespace_character() {
    for u in 0u32..=0x3000 {
        if let Some(c) = char::from_u32(u) {
            let s = format!("{}x{}", c, c);
            assert_eq!(trimmed_string(&s), s.trim(), "U+{:04X}", u);
            assert_eq!(is_blank(&c.to_string()), c.is_whitespace(), "U+{:04X}", u);
        }
    }
}
