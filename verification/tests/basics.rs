use mnemonai::order::{order_by_key, rearrange};
use mnemonai::paths::{
    extension, file_name, file_stem, join as join_paths, parent, same_path, strip_prefix, PathSet,
};
use mnemonai::text::{
    clip, contains, cut_text, decimal_text, first_bytes, is_cuttable, join, normalize_whitespace,
    pad_left, pad_right, parse_unsigned, repeat_char, split, split_whitespace, starts_with, trim,
};
use mnemonai::time::{at_unix_time, now, Timestamp};
use std::path::Path;

fn chars(s: &str) -> Vec<char> {
    s.chars().collect()
}

#[test]
fn whitespace_is_what_unicode_says() {
    for c in (0u32..0x3100).filter_map(char::from_u32) {
        assert_eq!(mnemonai::text::is_whitespace(c), c.is_whitespace(), "{:?}", c);
    }
}

#[test]
fn words_and_trimming() {
    for s in ["", " ", "a", "  a\u{3000}b\n", "\tx y  z\u{85}", "no-space"] {
        assert_eq!(trim(s), s.trim());
        let words: Vec<String> = s.split_whitespace().map(String::from).collect();
        assert_eq!(split_whitespace(s), words);
        assert_eq!(normalize_whitespace(s), words.join(" "));
        assert_eq!(join(&words, ", "), words.join(", "));
        let parts: Vec<String> = s.split('-').map(String::from).collect();
        assert_eq!(split(s, '-'), parts);
    }
    assert_eq!(split("a--b-", '-'), vec!["a", "", "b", ""]);
    assert_eq!(split("a--b-", '-').join("-"), "a--b-");
}

#[test]
fn searching_in_texts() {
    for hay in ["", "abc", "aab", "\u{e9}\u{e8}"] {
        for needle in ["", "a", "ab", "bc", "abcd", "\u{e8}"] {
            assert_eq!(contains(hay, needle), hay.contains(needle));
            assert_eq!(starts_with(hay, needle), hay.starts_with(needle));
        }
    }
}

#[test]
fn numbers_as_text() {
    for n in [0u64, 7, 10, 1234567890, u64::MAX] {
        assert_eq!(decimal_text(n), n.to_string());
        assert_eq!(parse_unsigned(&chars(&n.to_string())), Some(n));
    }
    for s in ["", "+", "+5", "-5", "5x", "007", "18446744073709551616", "\u{665}"] {
        assert_eq!(parse_unsigned(&chars(s)), s.parse::<u64>().ok(), "{}", s);
    }
}

#[test]
fn padding_and_cutting() {
    assert_eq!(pad_right("\u{e9}", 3), format!("{:3}", "\u{e9}"));
    assert_eq!(pad_left("7", 3), format!("{:>3}", "7"));
    assert_eq!(pad_left("1234", 3), "1234");
    assert_eq!(repeat_char('x', 3), "xxx");
    assert_eq!(clip("h\u{e9}llo", 2), "h\u{e9}");
    assert_eq!(clip("hi", 9), "hi");
    assert_eq!(first_bytes("h\u{e9}llo", 3).as_deref(), Some("h\u{e9}"));
    assert_eq!(first_bytes("h\u{e9}llo", 2), None);
    assert!(is_cuttable("hello", 3, 2));
    assert!(!is_cuttable("h\u{e9}llo", 3, 2));
    assert!(is_cuttable("h\u{e9}", 3, 2));
    assert_eq!(cut_text("hello", 3, 2), "he\u{2026}");
    assert_eq!(cut_text("hel", 3, 2), "hel");
}

#[test]
fn paths_are_taken_apart_as_std_does() {
    let paths = [
        "", "/", "//", ".", "..", "a", "a/", "/a", "/a/b", "a/./b", "./a", "/a//b/", "/..", "a/..",
        "a.b", ".a", ".a.b", "a.", "..b", "/x/a.tar.gz", "/x/./", "././a", "/a/b/.", "a//",
    ];
    for p in paths {
        let std_path = Path::new(p);
        let text = |o: Option<&std::path::Path>| o.map(|q| q.to_str().unwrap().to_string());
        assert_eq!(
            file_name(p).as_deref(),
            std_path.file_name().map(|n| n.to_str().unwrap()),
            "file name of {:?}",
            p
        );
        assert_eq!(parent(p), text(std_path.parent()), "parent of {:?}", p);
        assert_eq!(
            file_stem(p).as_deref(),
            std_path.file_stem().map(|n| n.to_str().unwrap()),
            "stem of {:?}",
            p
        );
        assert_eq!(
            extension(p).as_deref(),
            std_path.extension().map(|n| n.to_str().unwrap()),
            "extension of {:?}",
            p
        );
        for q in paths {
            assert_eq!(same_path(p, q), std_path == Path::new(q), "{:?} and {:?}", p, q);
            assert_eq!(
                strip_prefix(p, q),
                text(std_path.strip_prefix(q).ok()),
                "{:?} without {:?}",
                p,
                q
            );
            assert_eq!(join_paths(p, q), std_path.join(q).to_str().unwrap(), "{:?} + {:?}", p, q);
        }
    }
}

#[test]
fn path_sets_go_by_components() {
    let mut set = PathSet::new();
    assert!(set.is_empty());
    set.insert("/a/b".to_string());
    set.insert("/a//b/".to_string());
    assert!(set.contains("/a/./b"));
    assert!(!set.contains("a/b"));
    set.remove("/a/b/");
    assert!(set.is_empty());
    set.insert("x".to_string());
    set.clear();
    assert!(!set.contains("x"));
}

#[test]
fn orders_are_stable() {
    let keys: [i128; 6] = [3, -1, 3, 0, -1, i128::MIN];
    let order = order_by_key(&keys);
    let mut expected: Vec<usize> = (0..keys.len()).collect();
    expected.sort_by_key(|i| keys[*i]);
    assert_eq!(order, expected);
    assert_eq!(rearrange(vec!["a", "b", "c"], &[2, 0]), vec!["c", "a"]);
}

#[test]
fn points_in_time_are_ordered() {
    let t = |secs: i64, nanos: u32| Timestamp { secs, nanos, offset: 0 };
    assert!(t(1, 0).is_after(&t(0, 999_999_999)));
    assert!(t(-1, 1).is_after(&t(-1, 0)));
    assert!(!t(5, 5).is_after(&Timestamp { secs: 5, nanos: 5, offset: 3600 }));
    assert_eq!(t(-2, 500_000_000).timestamp_millis(), -1_500);
    assert!(t(0, 1_500_000_000).rank() < t(1, 0).rank());
    assert_eq!(at_unix_time(5, 7), Some(t(5, 7)));
    assert_eq!(at_unix_time(5, 1_000_000_000), None);
    assert_eq!(at_unix_time(i64::MAX, 0), None);
    assert!(now().secs > 1_600_000_000);
}
