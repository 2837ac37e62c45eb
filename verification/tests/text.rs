use crucible::json::object_text;
use crucible::names::{text_precedes, NameMap};
use crucible::numeral::{decimal_text, hex_text, parse_port};
use crucible::text::{is_white_space, join_with, rfind_char, split_on, trim};

#[test]
fn white_space_is_that_of_char() {
    for n in 0u32..=0x10ffff {
        if let Some(c) = char::from_u32(n) {
            assert_eq!(is_white_space(c), c.is_whitespace(), "{n:x}");
        }
    }
}

#[test]
fn trimming_agrees_with_str() {
    for s in ["", " ", " a ", "\u{3000}x y\n", "a", "\t\u{85}b\u{2028}"] {
        assert_eq!(trim(s), s.trim());
    }
}

#[test]
fn splitting_and_joining_are_inverse() {
    for s in ["", "/", "a/b", "//a//", "no separator", "λ/μ"] {
        let parts = split_on(s, '/');
        let expected: Vec<&str> = s.split('/').collect();
        assert_eq!(parts, expected);
        assert_eq!(join_with(&parts, "/"), s);
    }
    assert_eq!(join_with(&vec!["a".to_string(), "b".to_string()], ", "), "a, b");
    assert_eq!(rfind_char(&"a:b:c".chars().collect(), ':'), Some(3));
}

#[test]
fn numbers_are_written_and_read() {
    for n in [0u64, 7, 10, 65535, 18446744073709551615] {
        assert_eq!(decimal_text(n), n.to_string());
    }
    for s in ["0", "00080", "+1", "65535", "65536", "", "+", "-1", "1 ", "++1", "99999999999999"] {
        assert_eq!(parse_port(s), s.parse::<u16>().ok(), "{s:?}");
    }
    assert_eq!(hex_text(&vec![0, 9, 10, 255]), "00090aff");
}

#[test]
fn names_are_ordered_as_strings_are() {
    let samples = ["", "a", "aa", "b", "Z", "é", "\u{10000}", "\u{ffff}", "ab"];
    for a in samples {
        for b in samples {
            assert_eq!(text_precedes(a, b), a < b, "{a:?} {b:?}");
        }
    }
}

#[test]
fn name_map_keeps_the_last_value_and_the_order() {
    let mut map: NameMap<String> = NameMap::new();
    assert!(map.is_empty());
    for (k, v) in [("b", "1"), ("a", "2"), ("c", "3"), ("b", "4")] {
        map.insert(k.to_string(), v.to_string());
    }
    assert_eq!(map.keys(), ["a", "b", "c"]);
    assert_eq!(map.get("b").map(|v| v.as_str()), Some("4"));
    assert_eq!(map.get("d"), None);
    assert!(!map.is_empty());
    let pairs = map.pairs();
    assert_eq!(pairs[0], ("a".to_string(), "2".to_string()));
    assert_eq!(pairs.len(), 3);
}

#[test]
fn objects_of_texts_are_what_serde_prints() {
    let fields = vec![
        ("k\"1".to_string(), "line\nbreak \u{7f} é \\".to_string()),
        ("z".to_string(), String::new()),
    ];
    let mut map = serde_json::Map::new();
    for (k, v) in &fields {
        map.insert(k.clone(), serde_json::Value::String(v.clone()));
    }
    assert_eq!(object_text(&fields), serde_json::Value::Object(map).to_string());
    assert_eq!(object_text(&Vec::new()), "{}");
}
