use h_at_h_rs::digest;
use h_at_h_rs::rounding::round_to_double;
use h_at_h_rs::text;

#[test]
fn decimal_numbers_read_back() {
    for i in [0i64, 7, 10, -1, -10, 123456789, i64::MAX, i64::MIN] {
        let s = text::decimal_of_int(i);
        assert_eq!(s, format!("{}", i));
        assert_eq!(text::parse_signed(&s, i64::MIN, i64::MAX), Some(i));
    }
    assert_eq!(text::decimal_of(u64::MAX), "18446744073709551615");
}

#[test]
fn numbers_are_read_as_str_parse_does() {
    let inputs = [
        "", "+", "-", "0", "-0", "+5", "--5", "5 ", " 5", "007", "65535", "65536", "-1", "1_000",
        "99999999999999999999", "-32768", "-32769", "32767", "32768", "0x10", "٣",
    ];
    for s in inputs {
        assert_eq!(
            text::parse_unsigned(s, u16::MAX as u64),
            s.parse::<u16>().ok().map(|n| n as u64),
            "{}",
            s
        );
        assert_eq!(
            text::parse_signed(s, i16::MIN as i64, i16::MAX as i64),
            s.parse::<i16>().ok().map(|n| n as i64),
            "{}",
            s
        );
        assert_eq!(text::parse_unsigned(s, u64::MAX), s.parse::<u64>().ok(), "{}", s);
        assert_eq!(text::parse_signed(s, i64::MIN, i64::MAX), s.parse::<i64>().ok(), "{}", s);
    }
}

#[test]
fn splitting_is_that_of_str() {
    for s in ["", "a", ";", "a;b", ";a;;b;", "aä;ü", "a;b;c;d;e;f;g"] {
        let expected: Vec<String> = s.split(';').map(str::to_string).collect();
        assert_eq!(text::split_text(s, ';'), expected);
        for n in 0..8 {
            let expected: Vec<String> = s.splitn(n, ';').map(str::to_string).collect();
            assert_eq!(text::split_text_at_most(s, ';', n), expected);
        }
        let expected = s.split_once(';').map(|(a, b)| (a.to_string(), b.to_string()));
        assert_eq!(text::split_text_once(s, ';'), expected);
        assert_eq!(text::join_texts(&text::split_text(s, ';'), ";"), s);
    }
}

#[test]
fn lines_are_those_of_str() {
    for s in ["", "\n", "a", "a\n", "a\nb", "a\r\nb\r\n", "\r\n\r", "a\n\n\nb\r", "\r\r\n"] {
        let expected: Vec<String> = s.lines().map(str::to_string).collect();
        assert_eq!(text::lines_of(s), expected, "{:?}", s);
    }
}

#[test]
fn words_are_those_of_str() {
    for s in ["", " ", "a", "  a  b ", "a\u{a0}b\u{2003}c", "\t\n x\u{b}y", "ä ö"] {
        let expected: Vec<String> = s.split_whitespace().map(str::to_string).collect();
        assert_eq!(text::words_of(s), expected);
    }
}

#[test]
fn searching_is_that_of_str() {
    for (s, p) in [("", ""), ("abc", ""), ("abc", "bc"), ("abc", "cb"), ("aab", "ab"), ("ä", "a")] {
        assert_eq!(text::has_substring(s, p), s.contains(p));
        assert_eq!(text::has_prefix(s, p), s.starts_with(p));
    }
    assert!(text::has_first("#x", '#'));
    assert!(!text::has_first("", '#'));
}

#[test]
fn trimming_leaves_a_numeric_end() {
    for s in ["", "x", "10.bin", "a1b", "12", "٣x", "½"] {
        assert_eq!(text::trim_to_numeric_end(s), s.trim_end_matches(|c: char| !c.is_numeric()));
    }
}

#[test]
fn bytes_are_counted_in_utf8() {
    for s in ["", "abc", "aäb", "日本語", "a😀b"] {
        assert_eq!(text::byte_length(s), s.len());
        for n in 0..=s.len() + 1 {
            let expected = s.get(..n).map(str::to_string);
            assert_eq!(text::prefix_of_bytes(s, n), expected);
        }
    }
}

#[test]
fn case_is_ignored_within_ascii() {
    assert!(text::same_ignore_case("aB3-", "Ab3-"));
    assert!(!text::same_ignore_case("ä", "Ä"));
    assert!(!text::same_ignore_case("a", "ab"));
    assert!(text::same("a", "a"));
    assert!(!text::same("a", "A"));
}

#[test]
fn digests_of_known_texts() {
    assert_eq!(digest::sha1_hex_of(b"abc"), "a9993e364706816aba3e25717850c26c9cd0d89d");
    assert_eq!(digest::sha1_hex_of(b""), "da39a3ee5e6b4b0d3255bfef95601890afd80709");
}

#[test]
fn small_numbers_are_doubles() {
    for n in [0u128, 1, (1 << 53) - 1, 1 << 53, (1 << 53) + 1, (1 << 53) + 3, u64::MAX as u128] {
        assert_eq!(round_to_double(n), n as f64 as u128);
    }
    let mut n: u128 = 3;
    while n < 1 << 120 {
        n = n * 3 + 1;
        assert_eq!(round_to_double(n), n as f64 as u128);
    }
}
