use seaweed_volume::text::{
    chars_of, decimal, find_char, find_text, parse_numeral, parse_u32, rfind_char, split_lines,
    starts_with, trim, trim_bounds, two_digits,
};

fn string(chars: &[char]) -> String {
    chars.iter().collect()
}

#[test]
fn characters_are_found() {
    let s = chars_of("a,bé,c");
    assert_eq!(s.len(), 6);
    assert_eq!(find_char(&s, ','), Some(1));
    assert_eq!(rfind_char(&s, ','), Some(4));
    assert_eq!(find_char(&s, ';'), None);
    assert_eq!(rfind_char(&s, ';'), None);
}

#[test]
fn texts_are_found() {
    let s = chars_of("aabaab");
    assert_eq!(find_text(&s, "ab"), Some(1));
    assert_eq!(find_text(&s, "baab"), Some(2));
    assert_eq!(find_text(&s, "baabb"), None);
    assert_eq!(find_text(&s, ""), Some(0));
    assert!(starts_with(&s, "aab"));
    assert!(!starts_with(&s, "ab"));
    assert!(!starts_with(&[], "a"));
}

#[test]
fn numerals_are_read() {
    assert_eq!(parse_numeral(&chars_of("ff"), 16, u64::MAX), Some(255));
    assert_eq!(parse_numeral(&chars_of("Ff"), 16, 254), None);
    assert_eq!(parse_numeral(&chars_of("ffffffffffffffff"), 16, u64::MAX), Some(u64::MAX));
    assert_eq!(parse_numeral(&chars_of("10000000000000000"), 16, u64::MAX), None);
    assert_eq!(parse_numeral(&chars_of("0000000000000000000000012"), 10, 12), Some(12));
    assert_eq!(parse_numeral(&chars_of(""), 10, u64::MAX), None);
    assert_eq!(parse_numeral(&chars_of("+1"), 10, u64::MAX), None);
    assert_eq!(parse_numeral(&chars_of("1a"), 10, u64::MAX), None);
    assert_eq!(parse_u32(&chars_of("+1")), Some(1));
    assert_eq!(parse_u32(&chars_of("++1")), None);
    assert_eq!(parse_u32(&chars_of("-0")), None);
}

#[test]
fn numbers_are_written() {
    assert_eq!(decimal(0), "0");
    assert_eq!(decimal(1024), "1024");
    assert_eq!(decimal(u64::MAX), "18446744073709551615");
    assert_eq!(two_digits(0), "00");
    assert_eq!(two_digits(7), "07");
    assert_eq!(two_digits(70), "70");
    assert_eq!(two_digits(700), "700");
}

#[test]
fn white_space_is_trimmed_as_std_trims_it() {
    for s in ["", " ", " a b ", "\t\u{3000}x\u{85}\n", "\u{200b}x\u{a0}", "x"] {
        let chars = chars_of(s);
        assert_eq!(string(trim(&chars)), s.trim());
    }
    assert_eq!(trim_bounds(&chars_of("  ab ")), (2, 4));
}

#[test]
fn white_space_is_what_std_takes_for_it() {
    for code in 0..=0x10ffff {
        if let Some(c) = char::from_u32(code) {
            assert_eq!(trim(&[c]).is_empty(), c.is_whitespace());
        }
    }
}

#[test]
fn lines_end_at_line_feeds() {
    for s in ["", "\n", "a", "a\n", "a\r\nb", "a\n\nb\r", "\r\n\r\r\n", "a\rb\n"] {
        let found: Vec<String> = split_lines(&chars_of(s))
            .iter()
            .map(|line| string(line))
            .collect();
        let expected: Vec<String> = s.split_terminator('\n').map(|line| line.to_string()).collect();
        assert_eq!(found, expected);
    }
}
