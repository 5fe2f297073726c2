use xee::strings::{sort_pairs, str_lt};

#[test]
fn str_lt_is_code_point_order() {
    assert!(str_lt("", "a"));
    assert!(!str_lt("", ""));
    assert!(!str_lt("a", ""));
    assert!(str_lt("ab", "abc"));
    assert!(str_lt("abc", "abd"));
    assert!(!str_lt("abd", "abc"));
    assert!(str_lt("Z", "a"));
    assert!(str_lt("z", "\u{e9}"));
    assert!(str_lt("\u{e9}", "\u{1F600}"));
    for (a, b) in [("x", "xy"), ("xml", "xsl"), ("\u{e9}t\u{e9}", "\u{e9}te"), ("b", "b")] {
        assert_eq!(str_lt(a, b), a < b);
        assert_eq!(str_lt(b, a), b < a);
    }
}

#[test]
fn sort_pairs_orders_by_first_string() {
    let pairs = vec![
        ("xsl".to_string(), "urn:x".to_string()),
        ("".to_string(), "urn:default".to_string()),
        ("a".to_string(), "urn:a".to_string()),
    ];
    let sorted = sort_pairs(pairs);
    let firsts: Vec<&str> = sorted.iter().map(|p| p.0.as_str()).collect();
    assert_eq!(firsts, vec!["", "a", "xsl"]);
    assert_eq!(sorted[1].1, "urn:a");
}
