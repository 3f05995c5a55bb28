use neonia_swarm::text::{
    chars_of, decimal_string, replace_all, str_contains, str_eq, str_is_blank, str_starts_with,
    string_of, trim_chars,
};

#[test]
fn decimal_string_prints_like_display() {
    for n in [0u64, 7, 10, 140, 260, 1234567890, u64::MAX] {
        assert_eq!(decimal_string(n), n.to_string());
    }
}

#[test]
fn chars_round_trip() {
    let s = "h\u{e9}llo \u{26a0}\u{fe0f}";
    assert_eq!(string_of(&chars_of(s)), s);
    assert_eq!(chars_of(s).len(), s.chars().count());
}

#[test]
fn replace_all_matches_str_replace() {
    let cases = [
        ("1,2 3,4 5,6", " ", " L "),
        ("aaaa", "aa", "b"),
        ("fill=\"#FFFFFF\" x fill=\"#FFFFFF\"", "fill=\"#FFFFFF\"", "fill=\"none\""),
        ("", "x", "y"),
        ("no match", "zz", "q"),
    ];
    for (s, from, to) in cases {
        assert_eq!(replace_all(s, from, to), s.replace(from, to));
    }
}

#[test]
fn trim_chars_matches_trim_matches() {
    let set = vec!['"', '\'', '.', ',', '`', '*', '<', '>', '{', '}', '[', ']'];
    for s in ["\"ui://svg/abc\".", "<`x`>", "....", "", "plain", "{a.b}"] {
        let expected = s.trim_matches(|c| set.contains(&c));
        assert_eq!(trim_chars(s, &set), expected);
    }
}

#[test]
fn contains_and_prefix() {
    assert!(str_contains("{\"is_valid\":false}", "\"is_valid\":false"));
    assert!(!str_contains("{\"is_valid\": false}", "\"is_valid\":false"));
    assert!(str_contains("abc", ""));
    assert!(str_starts_with("Route to X", "Route"));
    assert!(!str_starts_with("Rout", "Route"));
    assert!(str_eq("abc", "abc"));
    assert!(!str_eq("abc", "abd"));
}

#[test]
fn blank_matches_trim() {
    for s in ["", "   ", "\t\n\r", "\u{3000}\u{a0}", " x ", "empty"] {
        assert_eq!(str_is_blank(s), s.trim().is_empty());
    }
}
