use auto_resume::cache::{cached_readme, get_cache_file, get_cache_key, CACHE_DIR};
use auto_resume::number::{decimal, parse_u64, parse_usize};
use auto_resume::text::{
    contains, from_chars, is_space, join, remove_chars, replace, same_text, split, to_chars, trim,
    trim_end_matches,
};

#[test]
fn trim_drops_unicode_white_space() {
    assert_eq!(trim("  a b \n"), "a b");
    assert_eq!(trim("\u{a0}\u{3000}x\u{2003}\r\n"), "x");
    assert_eq!(trim(" \t "), "");
    assert_eq!(trim(""), "");
    assert_eq!(trim("\u{200b}x"), "\u{200b}x");
}

#[test]
fn is_space_agrees_with_std() {
    let mut c = 0u32;
    while c < 0x3100 {
        if let Some(ch) = char::from_u32(c) {
            assert_eq!(is_space(ch), ch.is_whitespace(), "U+{:04X}", c);
        }
        c += 1;
    }
}

#[test]
fn replace_agrees_with_std() {
    let cases = [
        ("a<<X>>b<<X>>", "<<X>>", "-"),
        ("aaaa", "aa", "b"),
        ("aaa", "aa", "b"),
        ("abc", "", "-"),
        ("", "", "-"),
        ("", "x", "-"),
        ("abc", "abcd", "-"),
        ("a/b/c", "/", "-"),
        ("na\u{ef}ve caf\u{e9}", "\u{e9}", "e"),
    ];
    for (s, from, to) in cases {
        assert_eq!(replace(s, from, to), s.replace(from, to), "{:?} {:?} {:?}", s, from, to);
    }
}

#[test]
fn split_keeps_empty_pieces() {
    assert_eq!(split("1,,3", ','), vec!["1", "", "3"]);
    assert_eq!(split("", ','), vec![""]);
    assert_eq!(split(",", ','), vec!["", ""]);
    assert_eq!(split("abc", ','), vec!["abc"]);
    assert_eq!(split("a,b,", ','), vec!["a", "b", ""]);
}

#[test]
fn join_puts_separator_between() {
    let none: Vec<String> = Vec::new();
    assert_eq!(join(&none, ", "), "");
    assert_eq!(join(&vec!["a".to_string()], ", "), "a");
    assert_eq!(join(&vec!["a".to_string(), "".to_string(), "c".to_string()], ", "), "a, , c");
}

#[test]
fn contains_finds_substrings() {
    let hay = to_chars("auto-resume");
    assert!(contains(&hay, &to_chars("resume")));
    assert!(contains(&hay, &to_chars("")));
    assert!(contains(&hay, &to_chars("auto-resume")));
    assert!(!contains(&hay, &to_chars("resumes")));
    assert!(!contains(&to_chars(""), &to_chars("a")));
    assert!(contains(&to_chars(""), &to_chars("")));
}

#[test]
fn chars_round_trip() {
    let s = "a\u{e7}\u{2605}z";
    let chars = to_chars(s);
    assert_eq!(chars, vec!['a', '\u{e7}', '\u{2605}', 'z']);
    assert_eq!(from_chars(&chars), s);
}

#[test]
fn same_text_compares_content() {
    assert!(same_text("yes", "yes"));
    assert!(!same_text("yes", "yes "));
    assert!(!same_text("yes", "yeS"));
    assert!(same_text("", ""));
}

#[test]
fn trailing_slashes_are_dropped() {
    assert_eq!(trim_end_matches("https://x/y///", '/'), "https://x/y");
    assert_eq!(trim_end_matches("///", '/'), "");
    assert_eq!(trim_end_matches("/a", '/'), "/a");
}

#[test]
fn line_breaks_are_removed() {
    assert_eq!(remove_chars("aGVs\nbG8=\r\n", '\n', '\r'), "aGVsbG8=");
    assert_eq!(remove_chars("", '\n', '\r'), "");
}

#[test]
fn parse_u64_accepts_what_std_accepts() {
    let cases = [
        "0", "7", "007", "+5", "+", "", "-1", "-0", "1 ", " 1", "1a", "++1", "18446744073709551615",
        "18446744073709551616", "99999999999999999999999", "\u{661}\u{662}", "1_000", "+0",
    ];
    for s in cases {
        assert_eq!(parse_u64(s), s.parse::<u64>().ok(), "{:?}", s);
        assert_eq!(parse_usize(s), s.parse::<usize>().ok(), "{:?}", s);
    }
    assert_eq!(parse_u64("18446744073709551615"), Some(u64::MAX));
    assert_eq!(parse_u64("18446744073709551616"), None);
}

#[test]
fn decimal_writes_as_std_does() {
    for n in [0u64, 9, 10, 99, 100, 1203, 3150, u64::MAX] {
        assert_eq!(decimal(n), n.to_string());
    }
}

#[test]
fn cache_key_replaces_slashes() {
    assert_eq!(get_cache_key("owner/repo"), "owner-repo");
    assert_eq!(get_cache_key("a/b/c"), "a-b-c");
    assert_eq!(get_cache_key("plain"), "plain");
    assert_eq!(get_cache_file("owner/repo"), "owner-repo.md");
    assert_eq!(CACHE_DIR, ".readme-cache");
}

#[test]
fn cached_readme_needs_the_file() {
    assert_eq!(cached_readme(true, Some("x".to_string())), Some("x".to_string()));
    assert_eq!(cached_readme(true, None), None);
    assert_eq!(cached_readme(false, Some("x".to_string())), None);
}
