//! Text primitives against those of std.

use rust_download::text::{
    chars_of, contains, ellipsize, ends_with, eq_ignore_ascii_case, find, is_white_space,
    parse_u64, push_padded, starts_with, text_after_last, text_eq, to_decimal, trim, CharClass,
};

const SAMPLES: [&str; 12] = [
    "",
    "a",
    "aa",
    "aab",
    "abcabc",
    "äöü/äöü",
    "//",
    "filename=\"x\"",
    "下载中",
    "a/b/c.torrent",
    "magnet:?xt=urn:btih:00",
    "ab\u{3000}",
];

#[test]
fn characters_come_in_order() {
    for s in SAMPLES {
        assert_eq!(chars_of(s), s.chars().collect::<Vec<char>>());
    }
}

#[test]
fn decimal_notation() {
    for n in [0, 7, 9, 10, 11, 99, 100, 101, 65535, 4294967296, u64::MAX] {
        assert_eq!(to_decimal(n), n.to_string());
        assert_eq!(parse_u64(&to_decimal(n)), Some(n));
    }
}

#[test]
fn padded_notation() {
    for n in [0u64, 3, 42, 999, 1000, 9999, 10000, u64::MAX] {
        let mut out = "x".to_string();
        push_padded(&mut out, n, 4);
        assert_eq!(out, format!("x{:04}", n));
        let digits: &str = &out[1..];
        assert_eq!(digits.parse::<u64>(), Ok(n));
    }
}

#[test]
fn numbers_are_read_as_std_reads_them() {
    for s in [
        "",
        "+",
        "-",
        "0",
        "+0",
        "00012",
        "-1",
        "++1",
        "1+",
        " 1",
        "1 ",
        "12a",
        "*",
        "18446744073709551615",
        "18446744073709551616",
        "99999999999999999999",
        "+18446744073709551615",
        "１",
    ] {
        assert_eq!(parse_u64(s), s.parse::<u64>().ok(), "{:?}", s);
    }
}

#[test]
fn searching_agrees_with_std() {
    for s in SAMPLES {
        for p in SAMPLES {
            let at = s.find(p).map(|b| s[..b].chars().count());
            assert_eq!(find(s, p), at);
            assert_eq!(contains(s, p), s.contains(p));
            assert_eq!(starts_with(s, p), s.starts_with(p));
            assert_eq!(ends_with(s, p), s.ends_with(p));
            assert_eq!(text_eq(s, p), s == p);
            assert_eq!(eq_ignore_ascii_case(s, p), s.eq_ignore_ascii_case(p));
        }
    }
}

#[test]
fn first_occurrence_is_found() {
    assert_eq!(find("xfilename=a filename=b", "filename="), Some(1));
    assert_eq!(find("aaab", "aab"), Some(1));
    assert_eq!(find("abc", "abcd"), None);
}

#[test]
fn case_of_ascii_letters_only() {
    assert!(eq_ignore_ascii_case("ToRRent", "tOrrENT"));
    assert!(!eq_ignore_ascii_case("Ä", "ä"));
    assert!(!eq_ignore_ascii_case("[", "{"));
    assert!(!eq_ignore_ascii_case("@", "`"));
}

#[test]
fn what_follows_the_last_slash() {
    for s in SAMPLES {
        assert_eq!(text_after_last(s, '/'), s.split('/').last().unwrap_or("download"));
        assert_eq!(text_after_last(s, 'b'), s.rsplit('b').next().unwrap());
    }
    assert_eq!(text_after_last("bytes 0-0/1234", '/'), "1234");
    assert_eq!(text_after_last("https://example.com/dir/", '/'), "");
}

#[test]
fn white_space_is_that_of_std() {
    for code in 0..=0x10ffffu32 {
        if let Some(c) = char::from_u32(code) {
            assert_eq!(is_white_space(c), c.is_whitespace(), "{:x}", code);
        }
    }
}

#[test]
fn trimming_agrees_with_std() {
    for s in [
        "",
        " ",
        "  a b  ",
        "\t\n\u{3000}x\u{a0}",
        "\"quoted\"",
        "\"\"",
        "\"",
        "'\"a\"'",
        "\"'a'\"",
        "a\"b",
        "'''",
    ] {
        assert_eq!(trim(s, CharClass::White), s.trim());
        assert_eq!(trim(s, CharClass::Just('"')), s.trim_matches('"'));
        assert_eq!(trim(s, CharClass::Just('\'')), s.trim_matches('\''));
    }
}

#[test]
fn long_texts_are_cut() {
    assert_eq!(ellipsize("", 35), "");
    let fits = "下".repeat(35);
    assert_eq!(ellipsize(&fits, 35), fits);
    let long = "下".repeat(36);
    let cut = ellipsize(&long, 35);
    assert_eq!(cut, format!("{}…", "下".repeat(34)));
    assert_eq!(cut.chars().count(), 35);
    assert_eq!(ellipsize("abc", 1), "…");
}
