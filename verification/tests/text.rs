use rpr::text::{
    char_is_digit, find_char, from_chars, push_decimal, push_padded, same, to_chars, trim,
};

#[test]
fn a_string_is_its_characters() {
    assert_eq!(to_chars("aé\n"), vec!['a', 'é', '\n']);
    assert_eq!(to_chars(""), Vec::<char>::new());
    assert_eq!(from_chars(&vec!['a', 'é', 'b'], 1, 3), "éb");
    assert_eq!(from_chars(&vec!['a', 'é', 'b'], 2, 2), "");
}

#[test]
fn numbers_are_written_in_decimal() {
    for (n, text) in [(0u32, "0"), (7, "7"), (10, "10"), (905, "905"), (4294967295, "4294967295")] {
        let mut out = String::from("n=");
        push_decimal(&mut out, n);
        assert_eq!(out, format!("n={}", text));
    }
}

#[test]
fn numbers_are_padded_to_two_digits() {
    for (n, text) in [(0u8, "00"), (7, "07"), (10, "10"), (99, "99"), (100, "100"), (255, "255")] {
        let mut out = String::new();
        push_padded(&mut out, n);
        assert_eq!(out, text);
        assert_eq!(out, format!("{:0>2}", n));
    }
}

#[test]
fn only_the_ten_digits_are_digits() {
    for c in ['0', '5', '9'] {
        assert!(char_is_digit(c));
    }
    for c in ['/', ':', 'a', ' ', '٣', '²'] {
        assert!(!char_is_digit(c));
    }
}

#[test]
fn white_space_is_trimmed_at_both_ends_only() {
    assert_eq!(trim("  a b \n"), "a b");
    assert_eq!(trim("a"), "a");
    assert_eq!(trim(" \t\n"), "");
    assert_eq!(trim(""), "");
    assert_eq!(trim("\u{a0}x\u{2003}"), "x");
}

#[test]
fn a_character_is_found_at_its_first_place_in_the_range() {
    let src = to_chars("a}b}c");
    assert_eq!(find_char(&src, '}', 0, 5), 1);
    assert_eq!(find_char(&src, '}', 2, 5), 3);
    assert_eq!(find_char(&src, '}', 4, 5), 5);
    assert_eq!(find_char(&src, '}', 0, 1), 1);
    assert_eq!(find_char(&src, 'x', 0, 5), 5);
}

#[test]
fn strings_are_the_same_when_their_characters_are() {
    assert!(same("RP", "RP"));
    assert!(same("", ""));
    assert!(!same("RP", "Rp"));
    assert!(!same("RP", "RPP"));
}

#[test]
fn of_ascii_the_space_and_the_controls_from_tab_to_return_are_white_space() {
    assert_eq!(trim("\t\n\x0b\x0c\r x \r\x0c\x0b\n\t"), "x");
    assert_eq!(trim("\x08x\x0e"), "\x08x\x0e");
    assert_eq!(trim("\x1cx\x1f"), "\x1cx\x1f");
    assert_eq!(trim("\x00x\x7f"), "\x00x\x7f");
}
