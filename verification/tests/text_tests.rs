use hypanel_core::text::split_ws_str;
use hypanel_core::text::str_contains;
use hypanel_core::text::trim_str;
use hypanel_core::text::u32_to_string;

#[test]
fn trimming_covers_unicode_whitespace() {
    assert_eq!(trim_str("  padded  "), "padded");
    assert_eq!(trim_str("\u{2003}x\u{2003}"), "x");
    assert_eq!(trim_str("\u{00A0}\u{3000}y\t\r\n"), "y");
    assert_eq!(trim_str(""), "");
    assert_eq!(trim_str(" \u{200A} "), "");
}

#[test]
fn splitting_covers_unicode_whitespace() {
    let words = split_ws_str("one\u{00A0}two\u{2028}three");
    assert_eq!(words, vec![String::from("one"), String::from("two"), String::from("three")]);
    assert!(split_ws_str("\u{205F}\u{1680}").is_empty());
}

#[test]
fn containment_is_character_exact() {
    assert!(str_contains("user_code=ABC", "user_code="));
    assert!(!str_contains("user code=ABC", "user_code="));
    assert!(str_contains("anything", ""));
}

#[test]
fn decimal_formatting() {
    assert_eq!(u32_to_string(0), "0");
    assert_eq!(u32_to_string(5520), "5520");
    assert_eq!(u32_to_string(4294967295), "4294967295");
}
