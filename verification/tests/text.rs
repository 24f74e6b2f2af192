use ibm1130::text::{
    chars_of, digit_to_char, find_char, is_whitespace, parse_unsigned, push_decimal, push_hex4,
    push_signed, push_text, same_text, split_tokens, string_of, to_digit, trim_range,
};
use ibm1130::word::{sar_word, shl_word};

fn tokens_of(s: &str) -> Vec<String> {
    let chars = chars_of(s);
    split_tokens(&chars, 0, chars.len())
}

#[test]
fn characters_and_strings_convert_both_ways() {
    let chars = chars_of("a\u{e9}\u{1F600}z");
    assert_eq!(chars, vec!['a', '\u{e9}', '\u{1F600}', 'z']);
    assert_eq!(string_of(&chars, 0, 4), "a\u{e9}\u{1F600}z");
    assert_eq!(string_of(&chars, 1, 3), "\u{e9}\u{1F600}");
    assert_eq!(string_of(&chars, 2, 2), "");
    assert!(chars_of("").is_empty());
}

#[test]
fn texts_are_the_same_when_every_character_is() {
    assert!(same_text("", ""));
    assert!(same_text("LD", "LD"));
    assert!(!same_text("LD", "LDX"));
    assert!(!same_text("LDX", "LD"));
    assert!(!same_text("LD", "ld"));
    assert!(!same_text("LD", "LE"));
    assert!(same_text("\u{e9}", "\u{e9}"));
    assert!(!same_text("\u{e9}", "e\u{301}"));
}

#[test]
fn white_space_is_what_the_standard_library_says() {
    for code in 0..=0x11_0000u32 {
        if let Some(c) = char::from_u32(code) {
            assert_eq!(is_whitespace(c), c.is_whitespace(), "U+{code:04X}");
        }
    }
}

#[test]
fn tokens_are_the_runs_between_white_space() {
    assert_eq!(tokens_of("LD 0 10"), vec!["LD", "0", "10"]);
    assert_eq!(tokens_of("  LD\t\t0 \u{a0} 10 \r\n"), vec!["LD", "0", "10"]);
    assert_eq!(tokens_of("one"), vec!["one"]);
    assert!(tokens_of("").is_empty());
    assert!(tokens_of(" \t\n ").is_empty());
    for s in ["a b", " a  b ", "x\u{2003}y\u{3000}z", "\u{200b} \u{feff}", "a\u{85}b", ""] {
        let expected: Vec<&str> = s.split_whitespace().collect();
        assert_eq!(tokens_of(s), expected, "{s:?}");
    }
}

#[test]
fn tokens_of_a_range_stay_inside_it() {
    let chars = chars_of("ab cd ef");
    assert_eq!(split_tokens(&chars, 1, 7), vec!["b", "cd", "e"]);
    assert_eq!(split_tokens(&chars, 2, 3), Vec::<String>::new());
    assert_eq!(split_tokens(&chars, 8, 8), Vec::<String>::new());
}

#[test]
fn trimming_takes_the_white_space_off_both_ends() {
    for s in ["", " ", "a", " a", "a ", "  a b  ", "\t\r\nx y\u{a0}\u{3000}", "\u{200b} a"] {
        let chars = chars_of(s);
        let (from, to) = trim_range(&chars, 0, chars.len());
        assert_eq!(string_of(&chars, from, to), s.trim(), "{s:?}");
    }
    let chars = chars_of("ab  cd  ef");
    let (from, to) = trim_range(&chars, 2, 8);
    assert_eq!((from, to), (4, 6));
    let (from, to) = trim_range(&chars, 2, 4);
    assert_eq!(from, to);
}

#[test]
fn a_character_is_found_at_its_first_place() {
    let chars = chars_of("a;b;c");
    assert_eq!(find_char(&chars, 0, 5, ';'), 1);
    assert_eq!(find_char(&chars, 2, 5, ';'), 3);
    assert_eq!(find_char(&chars, 4, 5, ';'), 5);
    assert_eq!(find_char(&chars, 0, 1, ';'), 1);
    assert_eq!(find_char(&chars, 0, 5, 'x'), 5);
    assert_eq!(find_char(&chars, 3, 3, ';'), 3);
}

#[test]
fn digits_count_as_in_the_standard_library() {
    for radix in [2u32, 8, 10, 16, 36] {
        for code in 0..0x300u32 {
            let c = char::from_u32(code).unwrap();
            assert_eq!(to_digit(c, radix), c.to_digit(radix), "{c:?} in base {radix}");
        }
    }
    assert_eq!(to_digit('7', 10), Some(7));
    assert_eq!(to_digit('a', 16), Some(10));
    assert_eq!(to_digit('F', 16), Some(15));
    assert_eq!(to_digit('g', 16), None);
    assert_eq!(to_digit('8', 8), None);
    assert_eq!(to_digit('z', 36), Some(35));
}

fn number(s: &str, radix: u32, max: u32) -> Option<u32> {
    let chars = chars_of(s);
    parse_unsigned(&chars, 0, chars.len(), radix, max)
}

#[test]
fn unsigned_numbers_have_a_sign_at_most_and_digits() {
    assert_eq!(number("0", 10, 0xFFFF), Some(0));
    assert_eq!(number("65535", 10, 0xFFFF), Some(65535));
    assert_eq!(number("65536", 10, 0xFFFF), None);
    assert_eq!(number("+65535", 10, 0xFFFF), Some(65535));
    assert_eq!(number("255", 10, 255), Some(255));
    assert_eq!(number("256", 10, 255), None);
    assert_eq!(number("ff", 16, 255), Some(255));
    assert_eq!(number("FFFF", 16, 0xFFFF), Some(0xFFFF));
    assert_eq!(number("10000", 16, 0xFFFF), None);
    assert_eq!(number("101", 2, 7), Some(5));
    assert_eq!(number("00000000000000000000000000007", 10, 7), Some(7));
    assert_eq!(number("99999999999999999999999999999", 10, 0xFFFF), None);
    for bad in ["", "+", "-", "-0", "+-1", "1+", " 1", "1 ", "0x1", "1a"] {
        assert_eq!(number(bad, 10, 0xFFFF), None, "{bad:?}");
    }
    // A range of a longer text.
    let chars = chars_of("x=+42;");
    assert_eq!(parse_unsigned(&chars, 2, 5, 10, 100), Some(42));
    assert_eq!(parse_unsigned(&chars, 3, 5, 10, 41), None);
    assert_eq!(parse_unsigned(&chars, 3, 3, 10, 100), None);
}

#[test]
fn numbers_are_written_in_base_sixteen_and_ten() {
    for d in 0..16u8 {
        assert_eq!(
            digit_to_char(d),
            char::from_digit(d as u32, 16).unwrap().to_ascii_uppercase()
        );
    }
    for x in [0u16, 1, 9, 10, 15, 16, 0xFF, 0x100, 0x0ABC, 0x8000, 0xFFFF] {
        let mut s = String::from("<");
        push_hex4(&mut s, x);
        assert_eq!(s, format!("<{x:04X}"));
        let mut s = String::from("<");
        push_signed(&mut s, x);
        assert_eq!(s, format!("<{}", x as i16));
    }
    for n in [0u64, 1, 9, 10, 99, 100, 12345, 65535, u32::MAX as u64, u64::MAX] {
        let mut s = String::from("n=");
        push_decimal(&mut s, n);
        assert_eq!(s, format!("n={n}"));
    }
    let mut s = String::new();
    push_text(&mut s, "ab");
    push_text(&mut s, "");
    push_text(&mut s, "c");
    assert_eq!(s, "abc");
}

#[test]
fn words_shift_as_the_machine_shifts_them() {
    for x in [0u16, 1, 2, 0x00FF, 0x4000, 0x7FFF, 0x8000, 0x8001, 0xF0F0, 0xFFFF] {
        for count in 0..=255u8 {
            let left = if count < 16 { x << count } else { 0 };
            let right = if count < 16 {
                ((x as i16) >> count) as u16
            } else if x >= 0x8000 {
                0xFFFF
            } else {
                0
            };
            assert_eq!(shl_word(x, count), left);
            assert_eq!(sar_word(x, count), right);
        }
    }
}
