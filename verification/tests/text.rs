use jg::text::{
    chars_of, find, is_digit_char, is_whitespace_char, is_word_char, matches_at, parse_decimal,
    scan_run, str_contains, str_ends_with, str_equal, str_has_token, str_starts_with, CharClass,
};

#[test]
fn white_space_is_what_the_standard_library_calls_white_space() {
    for code in 0..=0x10FFFFu32 {
        if let Some(c) = char::from_u32(code) {
            assert_eq!(is_whitespace_char(c), c.is_whitespace(), "U+{:04X}", code);
        }
    }
}

#[test]
fn word_characters_and_digits_are_ascii() {
    for code in 0..=0x10FFFFu32 {
        if let Some(c) = char::from_u32(code) {
            assert_eq!(
                is_word_char(c),
                c.is_ascii_alphanumeric() || c == '_',
                "U+{:04X}",
                code
            );
            assert_eq!(is_digit_char(c), c.is_ascii_digit(), "U+{:04X}", code);
            assert_eq!(CharClass::Word.admits(c), is_word_char(c));
            assert_eq!(CharClass::Digit.admits(c), is_digit_char(c));
            assert_eq!(CharClass::Unquoted.admits(c), c != '"');
        }
    }
}

#[test]
fn chars_of_gives_the_characters_in_order() {
    assert_eq!(chars_of(""), Vec::<char>::new());
    assert_eq!(chars_of("a→é\u{1F600}!"), vec!['a', '→', 'é', '\u{1F600}', '!']);
}

#[test]
fn string_tests_agree_with_the_standard_library() {
    let texts = ["", "a", "ab", "aab", "aba", "abab", "é→", "→é→", " a b ", "a  b", "\ta\nb"];
    for text in texts {
        for part in texts {
            assert_eq!(str_starts_with(text, part), text.starts_with(part));
            assert_eq!(str_ends_with(text, part), text.ends_with(part));
            assert_eq!(str_contains(text, part), text.contains(part));
            assert_eq!(str_equal(text, part), text == part);
            assert_eq!(
                str_has_token(text, part),
                text.split_whitespace().any(|token| token == part),
                "{:?} {:?}",
                text,
                part
            );
        }
    }
}

#[test]
fn tokens_agree_with_the_standard_library_on_every_short_text() {
    let alphabet = ['a', 'b', ' ', '\n', '\u{a0}'];
    let mut texts = vec![String::new()];
    let mut grown = vec![String::new()];
    for _ in 0..5 {
        let mut next = Vec::new();
        for text in grown.iter() {
            for letter in alphabet.iter() {
                let mut longer = text.clone();
                longer.push(*letter);
                next.push(longer);
            }
        }
        texts.extend(next.iter().cloned());
        grown = next;
    }
    for text in texts.iter() {
        for token in ["", "a", "b", "ab", "ba", "aa", "a b", " a", "a "] {
            assert_eq!(
                str_has_token(text, token),
                text.split_whitespace().any(|part| part == token),
                "{:?} {:?}",
                text,
                token
            );
        }
    }
}

#[test]
fn find_gives_the_first_position() {
    let text = chars_of("é{}→{}");
    let marker = chars_of("{}");
    assert_eq!(find(&text, &marker), Some(1));
    assert_eq!(find(&chars_of("{ }"), &marker), None);
    assert_eq!(find(&chars_of("{"), &marker), None);
    assert_eq!(find(&chars_of(""), &marker), None);
    assert_eq!(find(&chars_of(""), &chars_of("")), Some(0));
    assert_eq!(find(&chars_of("abc"), &chars_of("")), Some(0));
    assert_eq!(find(&chars_of("aab"), &chars_of("ab")), Some(1));
    assert_eq!(find(&chars_of("abc"), &chars_of("abc")), Some(0));
    assert_eq!(find(&chars_of("abc"), &chars_of("abcd")), None);
    assert!(matches_at(&text, &marker, 1));
    assert!(matches_at(&text, &marker, 4));
    assert!(!matches_at(&text, &marker, 0));
    assert!(!matches_at(&text, &marker, 5));
    assert!(!matches_at(&text, &marker, usize::MAX));
    assert!(matches_at(&text, &chars_of(""), 6));
    assert!(!matches_at(&text, &chars_of(""), 7));
}

#[test]
fn runs_stop_at_the_first_character_outside_the_class() {
    let text = chars_of("ab_1-2\"x");
    assert_eq!(scan_run(&text, 0, CharClass::Word), 4);
    assert_eq!(scan_run(&text, 0, CharClass::Digit), 0);
    assert_eq!(scan_run(&text, 3, CharClass::Digit), 4);
    assert_eq!(scan_run(&text, 4, CharClass::Word), 4);
    assert_eq!(scan_run(&text, 0, CharClass::Unquoted), 6);
    assert_eq!(scan_run(&text, 7, CharClass::Word), 8);
    assert_eq!(scan_run(&text, 8, CharClass::Word), 8);
}

#[test]
fn decimals_are_read_up_to_the_limit() {
    assert_eq!(parse_decimal("0", 0), Some(0));
    assert_eq!(parse_decimal("000", 0), Some(0));
    assert_eq!(parse_decimal("1", 0), None);
    assert_eq!(parse_decimal("30", u64::MAX), Some(30));
    assert_eq!(parse_decimal("0030", 30), Some(30));
    assert_eq!(parse_decimal("31", 30), None);
    assert_eq!(parse_decimal("255", 255), Some(255));
    assert_eq!(parse_decimal("256", 255), None);
    assert_eq!(parse_decimal("2550", 255), None);
    assert_eq!(
        parse_decimal("18446744073709551615", u64::MAX),
        Some(u64::MAX)
    );
    assert_eq!(parse_decimal("18446744073709551616", u64::MAX), None);
    assert_eq!(parse_decimal("184467440737095516150", u64::MAX), None);
    assert_eq!(
        parse_decimal("9223372036854775807", 9223372036854775807),
        Some(9223372036854775807)
    );
    assert_eq!(parse_decimal("9223372036854775808", 9223372036854775807), None);
    for text in ["", " ", "+1", "-1", "1 ", " 1", "1a", "a1", "1.0", "١", "1_0"] {
        assert_eq!(parse_decimal(text, u64::MAX), None, "{:?}", text);
    }
}

#[test]
fn decimals_agree_with_the_standard_library() {
    for number in (0u64..3000).chain([u64::MAX - 1, u64::MAX, u64::MAX / 10, u64::MAX / 10 + 1]) {
        let text = number.to_string();
        for limit in [0, 9, 10, 255, 2999, u64::MAX / 10, u64::MAX - 1, u64::MAX] {
            let expected = text.parse::<u64>().ok().filter(|value| *value <= limit);
            assert_eq!(parse_decimal(&text, limit), expected, "{} {}", text, limit);
        }
    }
}
