use sic::{chars_of, decimal_of, escape_for_css, parse_u32, replace_chars, string_of};

#[test]
fn decimal_numerals() {
    assert_eq!(decimal_of(0), vec!['0']);
    assert_eq!(decimal_of(305), vec!['3', '0', '5']);
    assert_eq!(string_of(&decimal_of(u32::MAX)), "4294967295");
}

#[test]
fn parse_u32_accepts_what_std_accepts() {
    assert_eq!(parse_u32("0"), Some(0));
    assert_eq!(parse_u32("+17"), Some(17));
    assert_eq!(parse_u32("007"), Some(7));
    assert_eq!(parse_u32("4294967295"), Some(u32::MAX));
    assert_eq!(parse_u32("4294967296"), None);
    assert_eq!(parse_u32(""), None);
    assert_eq!(parse_u32("+"), None);
    assert_eq!(parse_u32("-1"), None);
    assert_eq!(parse_u32("1a"), None);
    assert_eq!(parse_u32(" 1"), None);
    for s in ["12", "99999999999", "+3", "x", "65536"] {
        assert_eq!(parse_u32(s), s.parse::<u32>().ok());
    }
}

#[test]
fn chars_and_strings_round_trip() {
    assert_eq!(chars_of("hé!"), vec!['h', 'é', '!']);
    assert_eq!(string_of(&vec!['h', 'é', '!']), "hé!");
}

#[test]
fn every_special_character_gets_one_backslash() {
    let specials = "\\!\"#$%&'()*+,-./:;<=>?@[]^`{|}~";
    for c in specials.chars() {
        assert_eq!(escape_for_css(&c.to_string()), format!("\\{}", c));
    }
}

#[test]
fn plain_characters_are_left_alone() {
    assert_eq!(escape_for_css("abcXYZ019 _"), "abcXYZ019 _");
    assert_eq!(escape_for_css(""), "");
}

#[test]
fn escaping_twice_escapes_again() {
    let once = escape_for_css("a.b");
    assert_eq!(once, "a\\.b");
    let twice = escape_for_css(&once);
    assert_eq!(twice, "a\\\\\\.b");
    assert_ne!(once, twice);
}

#[test]
fn replace_is_left_to_right_and_non_overlapping() {
    let r = replace_chars(&chars_of("aaa-aa"), &chars_of("aa"), &chars_of("X"));
    assert_eq!(string_of(&r), "Xa-X");
    let r = replace_chars(&chars_of("abc"), &chars_of(""), &chars_of("X"));
    assert_eq!(string_of(&r), "abc");
}
