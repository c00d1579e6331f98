use bot_trap::browser::{extract_version, is_outdated_browser, is_trusted_browser};
use bot_trap::decimal::{decimal_bytes, decimal_chars, parse_u32, parse_u64};
use bot_trap::text::{
    chars_of, entry_of, find_first, has_part, is_space_char, replace_all, same_str, trim_bounds,
};

fn chars(s: &str) -> Vec<char> {
    s.chars().collect()
}

#[test]
fn chars_of_gives_the_characters() {
    assert_eq!(chars_of("aé…😀"), chars("aé…😀"));
    assert_eq!(chars_of(""), Vec::<char>::new());
}

#[test]
fn white_space_is_what_std_trims() {
    for n in 0u32..0x11000 {
        if let Some(c) = char::from_u32(n) {
            assert_eq!(is_space_char(c), c.is_whitespace(), "U+{:04X}", n);
        }
    }
}

#[test]
fn trimming_agrees_with_std() {
    for s in ["", " ", "  a  ", "a", "\t a b \u{a0}\n", "\u{3000}x\u{2003}", "   "] {
        let v = chars(s);
        let (a, b) = trim_bounds(&v, 0, v.len());
        let got: String = v[a..b].iter().collect();
        assert_eq!(got, s.trim());
    }
}

#[test]
fn entry_drops_comment_and_space() {
    assert_eq!(entry_of(&chars("  8.8.8.8   # google dns ")), chars("8.8.8.8"));
    assert_eq!(entry_of(&chars("# just a comment")), chars(""));
    assert_eq!(entry_of(&chars("a#b#c")), chars("a"));
    assert_eq!(entry_of(&chars("plain")), chars("plain"));
}

#[test]
fn replacing_agrees_with_std() {
    for (hay, needle, with) in [
        ("aaa", "aa", "b"),
        ("<head></head>", "</head>", "X</head>"),
        ("abcabc", "bc", ""),
        ("", "x", "y"),
        ("xyz", "q", "r"),
        ("aXbXc", "X", "XX"),
    ] {
        let got: String = replace_all(&chars(hay), &chars(needle), &chars(with)).iter().collect();
        assert_eq!(got, hay.replace(needle, with));
    }
}

#[test]
fn finding_agrees_with_std() {
    for (hay, needle) in [("hello world", "o w"), ("aaa", "aa"), ("abc", "d"), ("abc", ""), ("", "a")] {
        let got = find_first(&chars(hay), &chars(needle));
        assert_eq!(got, hay.find(needle));
    }
}

#[test]
fn strings_compare_by_their_characters() {
    assert!(same_str("abc", "abc"));
    assert!(!same_str("abc", "abd"));
    assert!(!same_str("abc", "ab"));
    assert!(same_str("", ""));
    assert!(same_str("é", "é"));
}

#[test]
fn parts_between_separators() {
    assert!(has_part(&chars("a=1; b=2 ;c=3"), ';', &chars("b=2")));
    assert!(has_part(&chars("a=1; b=2 ;c=3"), ';', &chars("c=3")));
    assert!(!has_part(&chars("a=1; b=2 ;c=3"), ';', &chars("b=")));
    assert!(has_part(&chars("a;"), ';', &chars("")));
    assert!(has_part(&chars(""), ';', &chars("")));
    assert!(!has_part(&chars("a"), ';', &chars("")));
}

#[test]
fn decimal_numerals() {
    assert_eq!(decimal_bytes(0), b"0".to_vec());
    assert_eq!(decimal_bytes(7), b"7".to_vec());
    assert_eq!(decimal_bytes(1234567890), b"1234567890".to_vec());
    assert_eq!(decimal_bytes(u64::MAX), b"18446744073709551615".to_vec());
    assert_eq!(decimal_chars(305), vec!['3', '0', '5']);
}

#[test]
fn numbers_read_as_std_reads_them() {
    for s in [
        "0", "7", "007", "+5", "+", "", "-1", "12a", " 1", "18446744073709551615",
        "18446744073709551616", "99999999999999999999999", "4294967295", "4294967296", "++1",
    ] {
        assert_eq!(parse_u64(s.as_bytes()), s.parse::<u64>().ok(), "{:?}", s);
        assert_eq!(parse_u32(s.as_bytes()), s.parse::<u32>().ok(), "{:?}", s);
    }
}

#[test]
fn browser_versions() {
    let ua = "Mozilla/5.0 (X11; Linux x86_64) AppleWebKit/537.36 (KHTML, like Gecko) Chrome/119.0.0.0 Safari/537.36";
    assert_eq!(extract_version(ua, "Chrome"), Some(119));
    assert_eq!(extract_version(ua, "Safari"), Some(537));
    assert_eq!(extract_version(ua, "Firefox"), None);
    assert_eq!(extract_version(ua, ""), None);
    assert_eq!(extract_version("Chrome Chrome/x Chrome/12", "Chrome"), None);
    assert_eq!(extract_version("Chrome/99999999999", "Chrome"), None);
    assert_eq!(extract_version("Chrome/4294967295", "Chrome"), Some(u32::MAX));
}

#[test]
fn outdated_and_trusted_browsers() {
    let ua = "Mozilla/5.0 Chrome/119.0.0.0 Safari/537.36";
    let block = vec![("Chrome".to_string(), 120u32), ("Firefox".to_string(), 115u32)];
    assert!(is_outdated_browser(ua, &block));
    assert!(!is_outdated_browser(ua, &[("Chrome".to_string(), 119u32)]));
    assert!(!is_outdated_browser("curl/8.0", &block));
    assert!(is_trusted_browser(ua, &[("Chrome".to_string(), 119u32)]));
    assert!(!is_trusted_browser(ua, &[("Chrome".to_string(), 120u32)]));
    assert!(!is_trusted_browser(ua, &[]));
}
