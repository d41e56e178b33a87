use wine_cellar::text::{
    characters, decimal_text, has_suffix, has_text, is_control_character, is_white_space,
    lowercase_characters, trim,
};

#[test]
fn character_classes_agree_with_the_standard_library() {
    let mut code: u32 = 0;
    while code <= 0x10ffff {
        if let Some(c) = char::from_u32(code) {
            assert_eq!(is_white_space(c), c.is_whitespace(), "{:x}", code);
            assert_eq!(is_control_character(c), c.is_control(), "{:x}", code);
        }
        code += 1;
    }
}

#[test]
fn trimming_agrees_with_the_standard_library() {
    for s in [
        "", " ", "\t\n", "a", " a", "a ", " a b ", "\u{3000}x\u{a0}", "\u{200b} y", "\u{85}z\u{2028}",
    ] {
        assert_eq!(trim(s), s.trim());
    }
}

#[test]
fn trimming_twice_is_trimming_once() {
    let once = trim("  \u{2003}name\n");
    assert_eq!(once, "name");
    assert_eq!(trim(&once), once);
}

#[test]
fn lower_case_agrees_with_the_standard_library() {
    for s in ["", "AZaz09", "\u{c4}pfel-ARM64", "@[`{"] {
        let lowered: Vec<char> = s.to_ascii_lowercase().chars().collect();
        assert_eq!(lowercase_characters(s), lowered);
    }
}

#[test]
fn searching_agrees_with_the_standard_library() {
    for s in ["", "a", "ab", "aab", "aabab", "xaarch64y", "aarch6", "\u{e9}ab"] {
        for needle in ["", "a", "ab", "aab", "aarch64", "b"] {
            let all = characters(s);
            assert_eq!(has_text(&all, needle), s.contains(needle), "{} {}", s, needle);
            assert_eq!(has_suffix(&all, needle), s.ends_with(needle), "{} {}", s, needle);
        }
    }
}

#[test]
fn numerals_agree_with_the_standard_library() {
    for n in [0u64, 1, 9, 10, 11, 99, 100, 101, 1234567890, u64::MAX] {
        assert_eq!(decimal_text(n), n.to_string());
    }
}

#[test]
fn different_numbers_have_different_numerals() {
    assert_ne!(decimal_text(1), decimal_text(11));
    assert_ne!(decimal_text(10), decimal_text(1));
}
