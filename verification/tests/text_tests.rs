use m3u8_downloader::text::{
    blank, chars_of, contains, cut_before, decimal_chars, find, parse_unsigned, replace,
    split_lines, starts_with, string_of, white_space,
};

const SAMPLES: [&str; 14] = [
    "", "\n", "a", "a\n", "a\r\n", "a\r", "\r\n\r\n", "a\n\nb", "a\r\nb\nc\r", "\n\n\n",
    "a\r\r\nb", "中文\r\n第二行\n", "x\ry\nz", "\r",
];

#[test]
fn white_space_is_that_of_char() {
    for n in 0..=0x10ffffu32 {
        if let Some(c) = char::from_u32(n) {
            assert_eq!(white_space(c), c.is_whitespace(), "{:x}", n);
        }
    }
}

#[test]
fn blank_is_trimmed_to_nothing() {
    for s in ["", " ", "\t\r\n", "\u{3000}\u{a0}", " a ", "#", "\u{200b}"] {
        assert_eq!(blank(&chars_of(s)), s.trim().is_empty(), "{:?}", s);
    }
}

#[test]
fn lines_are_those_of_str() {
    for s in SAMPLES {
        let ours: Vec<String> = split_lines(&chars_of(s)).iter().map(|l| string_of(l)).collect();
        let theirs: Vec<String> = s.lines().map(|l| l.to_string()).collect();
        assert_eq!(ours, theirs, "{:?}", s);
    }
}

#[test]
fn replacement_is_that_of_str() {
    let cases = [
        ("", "", "-"), ("abc", "", "-"), ("abc", "b", ""), ("aaaa", "aa", "b"),
        ("aaaaa", "aa", "b"), ("abcabc", "abc", "xabc"), ("中文中", "中", "日本"), ("a", "ab", "c"),
        ("", "a", "b"), ("URI=\"k\"", "k", "key_1.key"),
    ];
    for (s, from, to) in cases {
        let ours = string_of(&replace(&chars_of(s), &chars_of(from), &chars_of(to)));
        assert_eq!(ours, s.replace(from, to), "{:?} {:?} {:?}", s, from, to);
    }
}

#[test]
fn searching() {
    let v = chars_of("abcabc");
    assert_eq!(find(&v, &chars_of("bc"), 0), Some(1));
    assert_eq!(find(&v, &chars_of("bc"), 2), Some(4));
    assert_eq!(find(&v, &chars_of("bc"), 5), None);
    assert_eq!(find(&v, &chars_of(""), 6), Some(6));
    assert_eq!(find(&v, &chars_of(""), 7), None);
    assert!(starts_with(&v, "abc"));
    assert!(starts_with(&v, ""));
    assert!(!starts_with(&v, "abcabca"));
    assert!(contains(&v, "cab"));
    assert!(!contains(&v, "cb"));
    assert_eq!(string_of(&cut_before(&v, "ca")), "ab");
    assert_eq!(string_of(&cut_before(&v, "x")), "abcabc");
}

#[test]
fn numbers_are_read_like_str_parse() {
    let cases = [
        "", "+", "-", "0", "+0", "-0", "007", "4294967295", "4294967296", "+4294967295", " 1", "1 ",
        "1a", "++1", "٣", "00000000000000000000000000000001", "18446744073709551615",
        "18446744073709551616", "99999999999999999999999999", "12",
    ];
    for s in cases {
        let u32_value = parse_unsigned(s, u32::MAX as u64);
        assert_eq!(u32_value, s.parse::<u32>().ok().map(|n| n as u64), "{:?}", s);
        assert_eq!(parse_unsigned(s, u64::MAX), s.parse::<u64>().ok(), "{:?}", s);
    }
}

#[test]
fn decimal_notation_reads_back() {
    for n in [0u64, 1, 9, 10, 99, 100, 1024, 4294967296, u64::MAX] {
        let text = string_of(&decimal_chars(n));
        assert_eq!(text, n.to_string());
        assert_eq!(parse_unsigned(text.as_str(), u64::MAX), Some(n));
    }
}
