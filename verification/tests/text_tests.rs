use disgreet::text::{is_white_space_char, push_char, pop_char, push_decimal, split_whitespace};

#[test]
fn white_space_agrees_with_std_for_every_char() {
    for n in 0u32..=0x10FFFF {
        if let Some(c) = char::from_u32(n) {
            assert_eq!(is_white_space_char(c), c.is_whitespace(), "char {:#x}", n);
        }
    }
}

fn std_words(s: &str) -> Vec<String> {
    s.split_whitespace().map(|w| w.to_string()).collect()
}

#[test]
fn split_whitespace_matches_std() {
    let cases = [
        "",
        "   ",
        "/usr/bin/bash",
        "/usr/bin/bash --login",
        "  sway   --unsupported-gpu  ",
        "a\tb\nc\u{3000}d\u{85}e",
        "dbus-run-session\u{A0}gnome-session",
        "x",
        " x ",
        "héllo wörld ünïcode",
    ];
    for case in cases {
        assert_eq!(split_whitespace(case), std_words(case), "case {:?}", case);
    }
}

#[test]
fn split_whitespace_of_command_line() {
    assert_eq!(
        split_whitespace("/usr/bin/bash --login"),
        vec!["/usr/bin/bash".to_string(), "--login".to_string()]
    );
    assert!(split_whitespace(" \t\n ").is_empty());
}

#[test]
fn decimal_rendering() {
    let mut s = String::from("n=");
    push_decimal(&mut s, 0);
    assert_eq!(s, "n=0");
    let mut s = String::new();
    push_decimal(&mut s, 4294967295);
    assert_eq!(s, "4294967295");
    let mut s = String::new();
    push_decimal(&mut s, 80);
    assert_eq!(s, "80");
}

#[test]
fn push_and_pop_chars() {
    let mut s = String::from("ab");
    push_char(&mut s, 'ç');
    assert_eq!(s, "abç");
    assert_eq!(pop_char(&mut s), Some('ç'));
    assert_eq!(s, "ab");
    let mut e = String::new();
    assert_eq!(pop_char(&mut e), None);
    assert_eq!(e, "");
}
