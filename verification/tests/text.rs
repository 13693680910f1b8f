use openshell_apple_container::creation::pull_policy;
use openshell_apple_container::creation::PullPolicy;
use openshell_apple_container::string_map::StringMap;
use openshell_apple_container::text::decimal_text;
use openshell_apple_container::text::push_text;
use openshell_apple_container::text::push_texts;
use openshell_apple_container::text::signed_decimal_text;
use openshell_apple_container::text::text_at_most;
use openshell_apple_container::text::text_contains;
use openshell_apple_container::text::text_eq;

#[test]
fn numbers_are_written_in_decimal() {
    for n in [0, 9, 10, 65535, 1234567890, u64::MAX] {
        assert_eq!(decimal_text(n), n.to_string());
    }
    for n in [0, 7, -7, 100, i32::MAX, i32::MIN] {
        assert_eq!(signed_decimal_text(n), n.to_string());
    }
}

#[test]
fn texts_are_searched_and_compared() {
    assert!(text_eq("", ""));
    assert!(text_eq("caf\u{e9}", "caf\u{e9}"));
    assert!(!text_eq("a", "ab"));
    assert!(!text_eq("ab", "aB"));
    assert!(text_contains("", ""));
    assert!(text_contains("abc", ""));
    assert!(text_contains("container not found", "not found"));
    assert!(text_contains("aab", "ab"));
    assert!(!text_contains("ab", "abc"));
    assert!(!text_contains("Not Found", "not found"));
}

#[test]
fn texts_are_ordered_as_strings_are() {
    let all = ["", "A", "B", "a", "aa", "ab", "b", "\u{e9}", "\u{ffff}", "\u{10000}"];
    for a in all {
        for b in all {
            assert_eq!(text_at_most(a, b), a <= b, "{a} {b}");
        }
    }
}

#[test]
fn texts_are_appended() {
    let mut list = vec!["a".to_string()];
    push_text(&mut list, "b");
    push_texts(&mut list, &vec!["c".to_string(), "d".to_string()]);
    assert_eq!(list, ["a", "b", "c", "d"]);
}

#[test]
fn a_policy_name_is_trimmed_of_all_white_space() {
    for code in 0..0x3100 {
        let Some(c) = char::from_u32(code) else { continue };
        let white = matches!(
            code,
            0x9..=0xd
                | 0x20
                | 0x85
                | 0xa0
                | 0x1680
                | 0x2000..=0x200a
                | 0x2028
                | 0x2029
                | 0x202f
                | 0x205f
                | 0x3000
        );
        let name = format!("{c}always{c}");
        let always = matches!(pull_policy(&name), PullPolicy::Always);
        assert_eq!(always, white, "{code:x}");
    }
}

#[test]
fn a_policy_name_is_read_in_any_case() {
    assert!(matches!(pull_policy(""), PullPolicy::IfNotPresent));
    assert!(matches!(pull_policy(" \t"), PullPolicy::IfNotPresent));
    assert!(matches!(pull_policy("IfNotPresent"), PullPolicy::IfNotPresent));
    assert!(matches!(pull_policy("ALWAYS"), PullPolicy::Always));
    assert!(matches!(pull_policy(" Never\n"), PullPolicy::Never));
    match pull_policy(" Some\u{c9}TIMES ") {
        PullPolicy::Unsupported(name) => assert_eq!(name, "some\u{c9}times"),
        other => panic!("{:?}", other),
    }
}

#[test]
fn a_map_keeps_the_first_place_and_the_last_value() {
    let mut map = StringMap::new();
    assert_eq!(map.len(), 0);
    map.insert("a".to_string(), 1);
    map.insert("b".to_string(), 2);
    map.insert("a".to_string(), 3);
    assert_eq!(map.len(), 2);
    assert_eq!((map.key_at(0).as_str(), *map.value_at(0)), ("a", 3));
    assert_eq!((map.key_at(1).as_str(), *map.value_at(1)), ("b", 2));
    assert_eq!(map.get("b"), Some(&2));
    assert_eq!(map.get("c"), None);
    assert!(map.contains_key("a") && !map.contains_key(""));
    let copy = StringMap::from_entries(vec![
        ("x".to_string(), "1".to_string()),
        ("x".to_string(), "2".to_string()),
    ])
    .clone();
    assert_eq!(copy.len(), 1);
    assert_eq!(copy.get("x"), Some(&"2".to_string()));
}
