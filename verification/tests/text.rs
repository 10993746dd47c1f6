//! Texts, maps of texts and JSON.
use cockatiel::json::{
    json_int, json_opt_int, json_opt_str, json_same, json_str, list, no_members, object, parse_json,
    put, write_json, write_pretty, Json,
};
use cockatiel::strmap::StrMap;
use cockatiel::text::{
    begins_with, comes_before, count_char, has_byte_len, i64_text, is_white_char, join_path, joined,
    parent_dir, parse_u32, slice, split_at_char, split_lines, split_pieces, split_words, text_bytes,
    to_chars, trimmed, trimmed_start, u64_text, unquoted,
};

fn owned(v: &[&str]) -> Vec<String> {
    v.iter().map(|s| s.to_string()).collect()
}

#[test]
fn white_space_is_what_unicode_says() {
    for n in 0..0x11_0000u32 {
        if let Some(c) = char::from_u32(n) {
            assert_eq!(is_white_char(c), c.is_whitespace());
        }
    }
}

#[test]
fn texts_are_cut_as_the_standard_library_cuts_them() {
    let samples = [
        "", " ", "a", " a b  c ", "\u{2003}x\u{a0}", "a,b,,c", ",", "line\r\nnext\n\nlast", "\n",
        "\r", "x\r\ry\r\n", "=a=b", "\"quoted\"", "héllo wörld 🎉",
    ];
    for s in samples {
        assert_eq!(trimmed(s), s.trim());
        assert_eq!(trimmed_start(s), s.trim_start());
        assert_eq!(split_words(s), s.split_whitespace().collect::<Vec<_>>());
        assert_eq!(split_pieces(s, ','), s.split(',').collect::<Vec<_>>());
        assert_eq!(split_lines(s), s.lines().collect::<Vec<_>>());
        assert_eq!(
            split_at_char(s, '='),
            s.split_once('=').map(|(a, b)| (a.to_string(), b.to_string()))
        );
        assert_eq!(count_char(s, 'l'), s.chars().filter(|c| *c == 'l').count());
        assert!(has_byte_len(s, s.len() as u32));
        assert!(!has_byte_len(s, s.len() as u32 + 1));
        assert_eq!(text_bytes(s), s.as_bytes());
        assert_eq!(to_chars(s), s.chars().collect::<Vec<_>>());
        assert_eq!(unquoted(s), s.trim_matches('"'));
        for t in samples {
            assert_eq!(begins_with(s, t), s.starts_with(t));
            assert_eq!(comes_before(s, t), s < t);
        }
    }
    assert_eq!(slice("héllo", 1, 4), "éll");
    assert_eq!(joined(&owned(&["a", "b", "c"]), ", "), "a, b, c");
}

#[test]
fn numbers_are_written_and_read() {
    for n in [0u64, 7, 10, 1234567890, u64::MAX] {
        assert_eq!(u64_text(n), n.to_string());
    }
    for n in [0i64, -1, 42, i64::MIN, i64::MAX] {
        assert_eq!(i64_text(n), n.to_string());
    }
    for s in ["0", "42", "+7", "4294967295", "4294967296", "", "+", "-1", "1x", " 1", "000000000001"] {
        assert_eq!(parse_u32(s), s.parse::<u32>().ok());
    }
}

#[test]
fn paths_are_joined_and_cut() {
    assert_eq!(join_path("a/b", "c"), "a/b/c");
    assert_eq!(parent_dir("a/b"), "a");
    for path in [
        "", "/", "//", "/.", ".", "./", "..", "a", "a/", "cfg//", "a/b/", "a//b", "/a", "//a", "a/.",
        "a/./b", "./a", "/./a", "a/..", "a/../b", "a/b/./", "/a/b.c", "a.b/.c",
    ] {
        let want = match std::path::Path::new(path).parent() {
            Some(p) => p.to_str().unwrap().to_string(),
            None => ".".to_string(),
        };
        assert_eq!(parent_dir(path), want, "{:?}", path);
    }
}

#[test]
fn map_keeps_the_last_value_in_the_first_place() {
    let mut m: StrMap<u32> = StrMap::new();
    m.insert("a".to_string(), 1);
    m.insert("b".to_string(), 2);
    m.insert("a".to_string(), 3);
    assert_eq!(m.len(), 2);
    assert_eq!(m.key_at(0), "a");
    assert_eq!(m.get("a"), Some(&3));
    if let Some(v) = m.get_mut("b") {
        *v = 5;
    }
    assert_eq!(m.remove("b"), Some(5));
    assert_eq!(m.remove("b"), None);
    assert!(!m.contains_key("b"));
}

#[test]
fn json_is_read() {
    let j = parse_json("{\"a\": 1, \"b\": [true, null, \"x\"], \"c\": -2, \"d\": 1.5}").unwrap();
    assert_eq!(j.int_at("a", 9), 1);
    assert_eq!(j.int_at("c", 9), -2);
    assert_eq!(j.int_at("missing", 9), 9);
    assert_eq!(j.text_at("a", "no text"), "no text");
    assert!(!j.bool_at("a"));
    match j.get("b") {
        Some(Json::List(l)) => {
            assert_eq!(l.len(), 3);
            assert!(l[1].is_null());
        }
        other => panic!("{:?}", other),
    }
    assert!(parse_json("{").is_err());
    assert!(parse_json("{").unwrap_err().contains("line 1"));
}

#[test]
fn json_is_written_in_order_of_keys() {
    let mut m = no_members();
    put(&mut m, "b", json_int(-3));
    put(&mut m, "a", json_str("x\"y"));
    put(&mut m, "b", list(vec![Json::Bool(true), Json::Null, json_int(7)]));
    let o = object(m);
    assert_eq!(write_json(&o), "{\"a\":\"x\\\"y\",\"b\":[true,null,7]}");
    assert_eq!(
        write_pretty(&object(vec![("k".to_string(), json_int(1))])),
        "{\n  \"k\": 1\n}"
    );
    assert_eq!(write_json(&json_opt_str(&None)), "null");
    assert_eq!(write_json(&json_opt_str(&Some("t".to_string()))), "\"t\"");
    assert_eq!(write_json(&json_opt_int(None)), "null");
    assert_eq!(write_json(&json_opt_int(Some(4))), "4");
}

#[test]
fn json_values_are_compared_by_what_they_say() {
    let a = parse_json("{\"x\": 1, \"y\": [2]}").unwrap();
    let b = parse_json("{\"y\": [2], \"x\": 1}").unwrap();
    let c = parse_json("{\"y\": [3], \"x\": 1}").unwrap();
    assert!(json_same(&a, &b));
    assert!(!json_same(&a, &c));
}

#[test]
fn fractions_keep_their_text() {
    let j = parse_json("{\"f\": 1.25}").unwrap();
    assert_eq!(write_json(&j), "{\"f\":1.25}");
    assert!(matches!(j.get("f"), Some(Json::Float(t)) if t == "1.25"));
}
