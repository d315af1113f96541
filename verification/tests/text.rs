use station_locator::text::{char_is_blank, stands_at, trim_from, trim_text};

#[test]
fn blanks_are_white_space() {
    let mut code = 0u32;
    while code <= 0x11000 {
        if let Some(c) = char::from_u32(code) {
            assert_eq!(char_is_blank(c), c.is_whitespace(), "{code:x}");
        }
        code += 1;
    }
    assert!(!char_is_blank(char::MAX));
}

#[test]
fn trimming_is_the_standard_trimming() {
    for text in [
        "",
        " ",
        "   ",
        "a",
        " a",
        "a ",
        "  a b  ",
        "\t\n a@b.c \r\n",
        "\u{a0}x\u{3000}",
        "\u{200b}x\u{200b}",
        " caf\u{e9} ",
        "\u{2003}\u{1F600}\u{2003}",
        "x\u{0}",
    ] {
        assert_eq!(trim_text(text), text.trim(), "{text:?}");
    }
}

#[test]
fn trimming_from_a_position() {
    let text = "ab  cd  ";
    assert_eq!(trim_from(text, 8, 2), "cd");
    assert_eq!(trim_from(text, 8, 0), "ab  cd");
    assert_eq!(trim_from(text, 8, 5), "d");
    assert_eq!(trim_from(text, 8, 6), "");
    assert_eq!(trim_from(text, 8, 8), "");
    let text = "\u{e9} x ";
    assert_eq!(trim_from(text, 4, 1), "x");
}

#[test]
fn parts_stand_where_they_stand() {
    let text = "h\u{e9}llo world";
    assert!(stands_at(text, 11, 0, "h\u{e9}l"));
    assert!(stands_at(text, 11, 6, "world"));
    assert!(stands_at(text, 11, 11, ""));
    assert!(stands_at(text, 11, 3, ""));
    assert!(!stands_at(text, 11, 7, "world"));
    assert!(!stands_at(text, 11, 6, "worlds"));
    assert!(!stands_at(text, 11, 12, ""));
    assert!(!stands_at(text, 11, 0, "hello"));
    assert!(!stands_at(text, 11, usize::MAX, "a"));
}
