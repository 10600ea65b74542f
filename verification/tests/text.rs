use iris::order::sort;
use iris::path::{extension, file_name, leaf_name};
use iris::preferences::GenreOption;
use iris::text::{
    byte_length, decimal_i64, decimal_u64, eq_ignore_ascii_case, join, parse_u32, parse_u64,
    parse_usize, sorts_before, split, split_once, strip_prefix, to_ascii_lowercase,
    to_ascii_uppercase, trim, trim_end_matches, two_column_i64, whitespace,
};
use iris::text_map::TextMap;

#[test]
fn white_space_is_that_of_unicode() {
    for n in 0..0x3100u32 {
        if let Some(c) = char::from_u32(n) {
            assert_eq!(whitespace(c), c.is_whitespace(), "{n:#x}");
        }
    }
}

#[test]
fn texts_are_trimmed() {
    for s in ["", " ", " a ", "a b", "\u{2003}é\n"] {
        assert_eq!(trim(s), s.trim());
    }
    assert_eq!(trim_end_matches("a//", '/'), "a");
}

#[test]
fn letters_change_case() {
    assert_eq!(to_ascii_lowercase("AbÉ9"), "abÉ9");
    assert_eq!(to_ascii_uppercase("abé9"), "ABé9");
    assert!(eq_ignore_ascii_case("aB", "Ab") && !eq_ignore_ascii_case("a", "ab"));
}

#[test]
fn numbers_are_written_and_read() {
    for n in [0, 9, 10, 12345, u64::MAX] {
        assert_eq!(decimal_u64(n), n.to_string());
        assert_eq!(parse_u64(&decimal_u64(n)), Some(n));
    }
    for n in [0, -1, i64::MIN, i64::MAX] {
        assert_eq!(decimal_i64(n), n.to_string());
    }
    for n in [-12, -1, 0, 7, 42, 123] {
        assert_eq!(two_column_i64(n), format!("{n:02}"));
    }
    for s in ["", "+", "-1", "+5", "007", "1a", "18446744073709551616", "4294967296"] {
        assert_eq!(parse_u64(s), s.parse().ok(), "{s}");
        assert_eq!(parse_u32(s), s.parse().ok(), "{s}");
        assert_eq!(parse_usize(s), s.parse().ok(), "{s}");
    }
}

#[test]
fn texts_are_split_and_joined() {
    for s in ["", ",", "a,b,,c", "abc"] {
        let parts = split(s, ',');
        assert_eq!(parts, s.split(',').collect::<Vec<_>>());
        assert_eq!(join(&parts, ","), s);
    }
    assert_eq!(split_once("a=b=c", '='), Some(("a".to_string(), "b=c".to_string())));
    assert_eq!(split_once("a", '='), None);
    assert_eq!(strip_prefix("Bearer x", "Bearer ").as_deref(), Some("x"));
    assert_eq!(strip_prefix("Bear", "Bearer "), None);
    assert_eq!(byte_length("é—"), 5);
}

#[test]
fn texts_are_ordered_like_strings() {
    let all = ["", "a", "ab", "b", "É", "z", "\u{10000}", "\u{ffff}"];
    for a in all {
        for b in all {
            assert_eq!(sorts_before(a, b), a < b, "{a} {b}");
        }
    }
}

#[test]
fn paths_are_taken_apart() {
    for p in ["a/b.mkv", "b.tar.gz", ".hidden", "a/.hidden", "x", "a/", "a/..", "a.", "", "/", "a/b/."] {
        let std = std::path::Path::new(p);
        assert_eq!(extension(p).as_deref(), std.extension().and_then(|e| e.to_str()), "{p}");
        assert_eq!(file_name(p).as_deref(), std.file_name().and_then(|e| e.to_str()), "{p}");
    }
    assert_eq!(leaf_name("a/b/c.mkv"), "c.mkv");
    assert_eq!(leaf_name("c"), "c");
}

#[test]
fn maps_keep_the_order_of_keys() {
    let mut m: TextMap<u32> = TextMap::new();
    for (k, v) in [("b", 1), ("a", 2), ("c", 3), ("b", 4)] {
        m.insert(k.to_string(), v);
    }
    let keys: Vec<&str> = (0..m.len()).map(|i| m.key_at(i)).collect();
    assert_eq!(keys, ["a", "b", "c"]);
    assert_eq!((m.get("b"), m.get("x"), m.contains_key("c")), (Some(&4), None, true));
}

#[test]
fn sorting_is_stable() {
    let g = |id: i64, name: &str| GenreOption { id, name: name.to_string() };
    let sorted = sort(vec![g(1, "b"), g(2, "a"), g(3, "b"), g(4, "a")]);
    let ids: Vec<i64> = sorted.iter().map(|g| g.id).collect();
    assert_eq!(ids, [2, 4, 1, 3]);
}
