use desktop_lister::syntax::{char_is_space, find_empty_key};

#[test]
fn white_space_is_what_the_standard_library_calls_white_space() {
    let mut code: u32 = 0;
    while code <= 0x10FFFF {
        if let Some(c) = char::from_u32(code) {
            assert_eq!(char_is_space(c), c.is_whitespace(), "U+{:04X}", code);
        }
        code += 1;
    }
}

#[test]
fn some_white_space_characters() {
    for c in [' ', '\t', '\n', '\r', '\u{b}', '\u{c}', '\u{85}', '\u{a0}', '\u{1680}', '\u{2000}',
        '\u{200a}', '\u{2028}', '\u{2029}', '\u{202f}', '\u{205f}', '\u{3000}']
    {
        assert!(char_is_space(c), "{:?}", c);
    }
}

#[test]
fn some_characters_that_are_no_white_space() {
    for c in ['a', '=', '#', '[', '\0', '\u{8}', '\u{e}', '\u{1f}', '\u{180e}', '\u{200b}',
        '\u{2060}', '\u{feff}']
    {
        assert!(!char_is_space(c), "{:?}", c);
    }
}

#[test]
fn line_starting_with_equals_has_an_empty_key() {
    assert!(find_empty_key("=x"));
    assert!(find_empty_key("="));
    assert!(find_empty_key("[Desktop Entry]\nName=Foo\n=bar\n"));
    assert!(find_empty_key("[Desktop Entry]\n=bar"));
}

#[test]
fn white_space_before_the_equals_is_no_key() {
    assert!(find_empty_key(" =x"));
    assert!(find_empty_key("\t \t=x"));
    assert!(find_empty_key("Name=Foo\n  = bar\n"));
    assert!(find_empty_key("Name=Foo\r\n=bar\r\n"));
    assert!(find_empty_key("Name=Foo\n\u{a0}\u{3000}=bar\n"));
    assert!(find_empty_key("\n\n\r\n ="));
}

#[test]
fn equals_after_a_key_is_fine() {
    assert!(!find_empty_key("Name=Foo"));
    assert!(!find_empty_key("[Desktop Entry]\nName=Foo\nExec=foo --a=b\n"));
    assert!(!find_empty_key("  Name = Foo ==\n"));
    assert!(!find_empty_key("a=\nb=\n"));
}

#[test]
fn equals_in_a_comment_or_group_line_is_fine() {
    assert!(!find_empty_key("#=x"));
    assert!(!find_empty_key("  # =x\n"));
    assert!(!find_empty_key("[=]\n"));
    assert!(!find_empty_key("[a=b]\nName=Foo\n"));
}

#[test]
fn text_without_equals_is_fine() {
    assert!(!find_empty_key(""));
    assert!(!find_empty_key("\n\n  \n"));
    assert!(!find_empty_key("[Desktop Entry]\nNameFoo\n"));
}

#[test]
fn a_lone_carriage_return_ends_no_line() {
    assert!(!find_empty_key("Name\r=Foo"));
    assert!(find_empty_key("Name\n\r=Foo"));
}

#[test]
fn a_character_that_only_looks_blank_counts_as_a_key() {
    assert!(!find_empty_key("\u{200b}=x"));
    assert!(!find_empty_key("\u{feff}=x"));
}
