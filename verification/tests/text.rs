use universal_launcher::text::{
    chars_of, contains, i64_to_decimal, is_whitespace, lines_of, parse_unsigned, replace,
    split_chars, starts_with, string_of, to_lowercase, to_uppercase, trim, u64_to_decimal,
    words_of,
};

fn strings(v: Vec<Vec<char>>) -> Vec<String> {
    v.iter().map(|w| w.iter().collect()).collect()
}

const SAMPLES: &[&str] = &[
    "", " ", "a", "  hello  ", "\tx\ny\r\n", "a\r", "a\n", "\n", "\r\n", "a\n\nb", "x\r\ny\rz\n",
    "\u{a0}nb\u{3000}", "word1 word2\u{2028}word3", "  lead", "trail  ", "a+b+c", "+", "++",
    "Name=Firefox", "%u%U", "PRETTY_NAME=\"Ubuntu 22.04\"", "ÇŞİ", "\u{85}mid\u{85}",
];

#[test]
fn whitespace_matches_std() {
    for u in 0u32..=0x10ffff {
        if let Some(c) = char::from_u32(u) {
            assert_eq!(is_whitespace(c), c.is_whitespace(), "char {:x}", u);
        }
    }
}

#[test]
fn trim_matches_std() {
    for s in SAMPLES {
        assert_eq!(trim(s), s.trim(), "{:?}", s);
    }
}

#[test]
fn lines_match_std() {
    for s in SAMPLES {
        let v = chars_of(s);
        let expected: Vec<String> = s.lines().map(|l| l.to_string()).collect();
        assert_eq!(strings(lines_of(&v)), expected, "{:?}", s);
    }
}

#[test]
fn words_match_std() {
    for s in SAMPLES {
        let v = chars_of(s);
        let expected: Vec<String> = s.split_whitespace().map(|l| l.to_string()).collect();
        assert_eq!(strings(words_of(&v, 0, v.len())), expected, "{:?}", s);
    }
}

#[test]
fn split_matches_std() {
    for s in SAMPLES {
        let v = chars_of(s);
        for c in ['+', '=', '\n', '.'] {
            let expected: Vec<String> = s.split(c).map(|l| l.to_string()).collect();
            assert_eq!(strings(split_chars(&v, 0, v.len(), c)), expected, "{:?} {:?}", s, c);
        }
    }
}

#[test]
fn replace_matches_std() {
    let cases = [("a b c", " ", "+"), ("%u%uu%%uu", "%u", ""), ("aaaa", "aa", "b"), ("", "x", "y"), ("abc", "abcd", "z")];
    for (s, p, t) in cases {
        assert_eq!(replace(s, p, t), s.replace(p, t));
    }
}

#[test]
fn contains_and_starts_with() {
    assert!(contains("firefox-esr", "fox"));
    assert!(!contains("firefox", "chrome"));
    assert!(contains("abc", ""));
    assert!(starts_with(">ls", ">"));
    assert!(!starts_with("ls", ">"));
    assert!(starts_with("", ""));
}

#[test]
fn decimals() {
    assert_eq!(u64_to_decimal(0), "0");
    assert_eq!(u64_to_decimal(1234567890), "1234567890");
    assert_eq!(u64_to_decimal(u64::MAX), u64::MAX.to_string());
    assert_eq!(i64_to_decimal(-42), "-42");
    assert_eq!(i64_to_decimal(i64::MIN), i64::MIN.to_string());
    assert_eq!(i64_to_decimal(7), "7");
}

#[test]
fn parse_unsigned_matches_std() {
    let cases = ["0", "+5", "+", "", "12a", "18446744073709551615", "18446744073709551616", "4294967295", "4294967296", "-1", "007", " 1"];
    for s in cases {
        let v = chars_of(s);
        assert_eq!(parse_unsigned(&v, 0, v.len(), u64::MAX), s.parse::<u64>().ok(), "{:?}", s);
        assert_eq!(parse_unsigned(&v, 0, v.len(), u32::MAX as u64), s.parse::<u32>().ok().map(|x| x as u64), "{:?}", s);
    }
}

#[test]
fn case_conversion() {
    assert_eq!(to_lowercase("FireFox"), "firefox");
    assert_eq!(to_uppercase("pdf"), "PDF");
    assert_eq!(to_lowercase(""), "");
    assert_eq!(string_of(&chars_of("ünï")), "ünï");
}
