use kactus::text::{
    chars_of, decimal_string, parse_u64, replace, same_text, signed_decimal_string, sort_texts,
    split_chars, string_of, text_le_exec, trim,
};

#[test]
fn replace_replaces_every_occurrence() {
    assert_eq!(replace("a PASSWORD b PASSWORD", "PASSWORD", "k1"), "a k1 b k1");
    assert_eq!(replace("no key here", "PASSWORD", "k1"), "no key here");
    assert_eq!(replace("aaa", "aa", "b"), "ba");
    assert_eq!(replace("gtfsrtexists|f-x~rt", "gtfsrtexists|", ""), "f-x~rt");
    assert_eq!(replace("", "x", "y"), "");
}

#[test]
fn split_gives_one_more_piece_than_separators() {
    assert_eq!(split_chars("a,b,,c", ','), vec!["a", "b", "", "c"]);
    assert_eq!(split_chars("", ','), vec![""]);
    assert_eq!(split_chars(",", ','), vec!["", ""]);
    assert_eq!(split_chars("x_y_1234", '_'), vec!["x", "y", "1234"]);
}

#[test]
fn split_then_join_gives_back_the_text() {
    for s in ["k1,k2,k3", "single", ",,", "a,", ",b"] {
        assert_eq!(split_chars(s, ',').join(","), s);
    }
}

#[test]
fn trim_removes_unicode_white_space_at_both_ends() {
    assert_eq!(trim("  \t{a: 1}\n "), "{a: 1}");
    assert_eq!(trim("\u{a0}\u{3000}x y\u{2029}"), "x y");
    assert_eq!(trim("   "), "");
    assert_eq!(trim("inner  space"), "inner  space");
}

#[test]
fn parse_u64_reads_like_str_parse() {
    for s in ["0", "42", "+7", "0007", "18446744073709551615", "", "+", "-1", "1 ", "18446744073709551616", "12a"] {
        assert_eq!(parse_u64(s), s.parse::<u64>().ok(), "input {:?}", s);
    }
}

#[test]
fn decimal_writes_like_to_string() {
    for n in [0u128, 7, 10, 1699999999999, u128::MAX] {
        assert_eq!(decimal_string(n), n.to_string());
    }
    for n in [0i64, -1, 42, i64::MIN, i64::MAX, -2147483648] {
        assert_eq!(signed_decimal_string(n), n.to_string());
    }
}

#[test]
fn decimal_reads_back() {
    for n in [0u64, 5, 1700000000123, u64::MAX] {
        assert_eq!(parse_u64(&decimal_string(n as u128)), Some(n));
    }
}

#[test]
fn sort_orders_like_string_sort() {
    let v: Vec<String> = ["b", "a", "ab", "", "é", "Z", "a"].iter().map(|s| s.to_string()).collect();
    let mut expected = v.clone();
    expected.sort();
    assert_eq!(sort_texts(v), expected);
}

#[test]
fn comparisons_and_conversions() {
    assert!(same_text("abc", "abc"));
    assert!(!same_text("abc", "abd"));
    assert!(text_le_exec("ab", "abc"));
    assert!(!text_le_exec("b", "abc"));
    assert_eq!(string_of(&chars_of("héllo")), "héllo");
}
