use gwm_tui::text::{is_control, is_whitespace};

#[test]
fn whitespace_agrees_with_std_on_every_char() {
    for n in 0u32..=0x10FFFF {
        if let Some(c) = char::from_u32(n) {
            assert_eq!(is_whitespace(c), c.is_whitespace(), "U+{:04X}", n);
            assert_eq!(is_control(c), c.is_control(), "U+{:04X}", n);
        }
    }
}

#[test]
fn ideographic_space_is_whitespace_and_zero_width_space_is_not() {
    assert!(is_whitespace('\u{3000}'));
    assert!(is_whitespace('\u{85}'));
    assert!(!is_whitespace('\u{200B}'));
    assert!(!is_whitespace('x'));
}
