use vigil::text::{
    byte_len_below, chars_of, contains_text, decimal_string, item_matches, line_count, lines,
    parse_usize, remove_line_breaks, shorten, starts_with, string_of, strip_repeated_prefix_of,
    trim_bounds, white_space,
};

#[test]
fn empty_filter_matches_everything() {
    assert!(item_matches("anything", ""));
    assert!(item_matches("", ""));
}

#[test]
fn filter_ignores_case() {
    assert!(item_matches("Orders_Archive", "archive"));
    assert!(item_matches("orders", "ORD"));
    assert!(!item_matches("orders", "users"));
    assert!(!item_matches("", "x"));
}

#[test]
fn lines_agree_with_std() {
    let samples = [
        "",
        "a",
        "a\n",
        "a\nb",
        "a\r\nb\r\n",
        "\n\n",
        "one\ntwo\n\nthree",
        "x\r",
        "used_memory_human:1.5M\r\nused_memory:123\r\n",
    ];
    for s in samples.iter() {
        let ours: Vec<String> = lines(s);
        let std_lines: Vec<String> = s.lines().map(|l| l.to_string()).collect();
        assert_eq!(ours, std_lines, "input {:?}", s);
        assert_eq!(line_count(s), s.lines().count());
    }
}

#[test]
fn usize_parsing_agrees_with_std() {
    let samples = [
        "0", "16", "+7", "007", "", "+", "-1", "12a", " 3", "18446744073709551615",
        "18446744073709551616", "99999999999999999999999", "4294967296",
    ];
    for s in samples.iter() {
        assert_eq!(parse_usize(s), s.parse::<usize>().ok(), "input {:?}", s);
    }
}

#[test]
fn decimal_agrees_with_display() {
    for n in [0u64, 7, 10, 42, 100, 12345, u64::MAX].iter() {
        assert_eq!(decimal_string(*n), n.to_string());
    }
}

#[test]
fn whitespace_agrees_with_std() {
    for v in 0u32..0x11_0000 {
        if let Some(c) = char::from_u32(v) {
            assert_eq!(white_space(c), c.is_whitespace(), "char {:#x}", v);
        }
    }
}

#[test]
fn trimming_agrees_with_std() {
    for s in ["", "  ", " a ", "\tb c\n", "\u{3000}x\u{2009}", "none"].iter() {
        let v = chars_of(s);
        let (lo, hi) = trim_bounds(&v, 0, v.len());
        let t: String = v[lo..hi].iter().collect();
        assert_eq!(t, s.trim());
    }
}

#[test]
fn shortening_cuts_at_the_byte_limit() {
    assert_eq!(shorten("short", 50), "short");
    let long = "a".repeat(60);
    assert_eq!(shorten(&long, 50), format!("{}\u{2026}", "a".repeat(50)));
    // Exactly at the limit: kept whole.
    let exact = "b".repeat(50);
    assert_eq!(shorten(&exact, 50), exact);
    // Multi-byte characters on the boundary.
    let wide = "é".repeat(30); // 60 bytes
    assert_eq!(shorten(&wide, 50), format!("{}\u{2026}", "é".repeat(25)));
}

#[test]
fn line_breaks_are_removed() {
    assert_eq!(remove_line_breaks("{\r\n  \"a\": 1\n}"), "{  \"a\": 1}");
    assert_eq!(remove_line_breaks(""), "");
}

#[test]
fn prefixes() {
    assert!(starts_with("dbx", "db"));
    assert!(!starts_with("d", "db"));
    assert!(starts_with("x", ""));
    assert_eq!(strip_repeated_prefix_of("abab:x", "ab"), "abab:x".trim_start_matches("ab"));
    assert_eq!(strip_repeated_prefix_of("x", "ab"), "x");
}

#[test]
fn concatenation_and_collection() {
    assert_eq!(vigil::text::concat("ab", "cd"), "abcd");
    assert_eq!(string_of(&vec!['h', 'é']), "hé");
}

#[test]
fn byte_length_limit() {
    assert!(byte_len_below("abc", 4));
    assert!(!byte_len_below("abcd", 4));
    assert!(!byte_len_below("éé", 4));
    assert!(byte_len_below("é", 3));
}

#[test]
fn longer_filter_admits_no_more() {
    let items = ["orders", "Order_Items", "users", "ORDERS_ARCHIVE", ""];
    for item in items {
        if item_matches(item, "orders") {
            assert!(item_matches(item, "order"));
        }
    }
    assert!(item_matches("Order_Items", "order"));
    assert!(!item_matches("Order_Items", "orders"));
    assert!(item_matches("ORDERS_ARCHIVE", "Orders"));
}

#[test]
fn substring_search() {
    assert!(contains_text("trace-42 done", "trace-42"));
    assert!(contains_text("abc", ""));
    assert!(!contains_text("ab", "abc"));
    assert!(!contains_text("trace-4", "trace-42"));
}
