use qb_och::app_state::{shortened_name, AppState};
use qb_och::bindings::{base64_encode, char_is_whitespace, to_lowercase};
use qb_och::models::{SortConfig, SortDirection, SortField};
use qb_och::text::{
    byte_prefix, chars_of, contains_chars, decimal_string, ends_with_chars, owned, replace_chars,
    split_chars, starts_with_chars, string_of, text_equals, trim_text, utf8_width,
};

#[test]
fn trimming_and_splitting() {
    assert_eq!(trim_text("  a b \t\n"), "a b");
    assert_eq!(trim_text("\u{3000}x\u{a0}"), "x");
    assert_eq!(trim_text(""), "");
    let pieces: Vec<String> = split_chars(&chars_of("a,,b,"), ',').iter().map(string_of).collect();
    assert_eq!(pieces, vec!["a", "", "b", ""]);
    assert!(char_is_whitespace('\u{2028}'));
    assert!(!char_is_whitespace('x'));
}

#[test]
fn searching_and_replacing() {
    let s = chars_of("abcabc");
    assert!(contains_chars(&s, &chars_of("ca")));
    assert!(!contains_chars(&s, &chars_of("cc")));
    assert!(starts_with_chars(&s, &chars_of("ab")));
    assert!(ends_with_chars(&s, &chars_of("bc")));
    let r = replace_chars(&s, &chars_of("bc"), &chars_of("X"));
    assert_eq!(string_of(&r), "aXaX");
    let r2 = replace_chars(&chars_of("aaa"), &chars_of("aa"), &chars_of("b"));
    assert_eq!(string_of(&r2), "ba");
    assert!(text_equals("x", "x"));
    assert!(!text_equals("x", "y"));
    assert_eq!(owned("z"), "z");
}

#[test]
fn numbers_and_bytes() {
    assert_eq!(decimal_string(0), "0");
    assert_eq!(decimal_string(1234567890), "1234567890");
    assert_eq!(decimal_string(u64::MAX), u64::MAX.to_string());
    assert_eq!(utf8_width('a'), 1);
    assert_eq!(utf8_width('\u{e9}'), 2);
    assert_eq!(utf8_width('\u{2713}'), 3);
    assert_eq!(utf8_width('\u{1f600}'), 4);
    assert_eq!(byte_prefix("h\u{e9}llo", 3), "h\u{e9}");
    assert_eq!(to_lowercase("ÄbC"), "äbc");
    assert_eq!(base64_encode(b"hello"), "aGVsbG8=");
}

#[test]
fn toast_names_are_shortened() {
    assert_eq!(shortened_name("short"), "short");
    let exact = "y".repeat(52);
    assert_eq!(shortened_name(&exact), exact);
    let long = "x".repeat(60);
    assert_eq!(shortened_name(&long), format!("{}\u{2026}", "x".repeat(51)));
}

#[test]
fn flipping_direction_twice_restores_it() {
    let mut s = AppState::default();
    s.sort_config = SortConfig { field: SortField::Name, direction: SortDirection::Asc };
    s.toggle_sort_direction();
    s.toggle_sort_direction();
    assert_eq!(s.sort_config.direction, SortDirection::Asc);
}

#[test]
fn selection_stays_visible() {
    let mut s = AppState::default();
    for count in [0usize, 1, 19, 20, 21, 100] {
        for pos in [0usize, 5, 19, 20, 50, 99, 200] {
            s.jump_to(pos, count);
            if s.selected_index < count {
                assert!(s.scroll_offset <= s.selected_index);
                assert!(s.selected_index < s.scroll_offset + 20);
            }
        }
    }
}

#[test]
fn whitespace_agrees_with_std_everywhere() {
    for code in 0u32..=0x10FFFF {
        if let Some(c) = char::from_u32(code) {
            assert_eq!(char_is_whitespace(c), c.is_whitespace(), "at {:#x}", code);
        }
    }
}
