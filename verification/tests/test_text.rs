use monkey::decimal::{decimal_i64, decimal_u64, parse_i64, parse_u64, parse_usize};
use monkey::json::Json;
use monkey::text::{
    CharSet, contains, contains_char, ends_with, eq_ignore_ascii_case, is_before, join_path,
    join_with, lines, replace, same_text, split, split_list, split_once, starts_with, strip_back,
    strip_ends, strip_front, strip_prefix, trim,
};

#[test]
fn numbers_in_decimal() {
    for n in [0, 1, -1, 10, i64::MAX, i64::MIN] {
        assert_eq!(decimal_i64(n), n.to_string());
        assert_eq!(parse_i64(&decimal_i64(n)), Some(n));
    }
    assert_eq!(decimal_u64(u64::MAX), u64::MAX.to_string());
    for text in [
        "", "+", "-", "+5", "-5", "007", "18446744073709551615", "18446744073709551616",
        "9223372036854775808", "-9223372036854775808", "-9223372036854775809", " 1", "1 ", "٣",
        "-0", "+-1", "1_0",
    ] {
        assert_eq!(parse_u64(text), text.parse::<u64>().ok(), "{text}");
        assert_eq!(parse_usize(text), text.parse::<usize>().ok(), "{text}");
        assert_eq!(parse_i64(text), text.parse::<i64>().ok(), "{text}");
    }
}

#[test]
fn trimming_knows_every_kind_of_white_space() {
    for text in [
        "", "  ", "\t\u{b}\u{c}\r\n a \u{85}\u{a0}", "\u{1680}\u{2000}b\u{200a}\u{2028}",
        "\u{200b}c\u{feff}", "\u{202f}\u{205f}d e\u{3000}", "\u{180e}x",
    ] {
        assert_eq!(trim(text), text.trim(), "{text:?}");
    }
    assert_eq!(strip_front("##a#", CharSet::Hash), "a#");
    assert_eq!(strip_back("a//", CharSet::Slash), "a");
    assert_eq!(strip_ends("-a-b-", CharSet::Hyphen), "a-b");
    assert_eq!(strip_back("a:.!?;,", CharSet::Closing), "a:");
}

#[test]
fn parts_of_texts() {
    assert!(contains("abc", "") && contains("abc", "bc") && !contains("abc", "ca"));
    assert!(starts_with("abc", "ab") && !starts_with("abc", "b"));
    assert!(ends_with("abc", "bc") && !ends_with("c", "bc"));
    assert_eq!(strip_prefix("abc", "ab"), Some("c"));
    assert_eq!(strip_prefix("abc", "b"), None);
    assert!(contains_char("aé", 'é') && !contains_char("ae", 'é'));
    assert!(same_text("é", "é") && !same_text("e", "é"));
    assert_eq!(split_once("a=b=c", '='), Some(("a", "b=c")));
    assert_eq!(split_once("a", '='), None);
    assert!(eq_ignore_ascii_case("aBé", "AbÉ") == "aBé".eq_ignore_ascii_case("AbÉ"));
    assert!(eq_ignore_ascii_case("aB", "Ab"));
}

#[test]
fn splitting_and_joining() {
    for text in ["", ",", "a", "a,b", ",a,,b,"] {
        let parts: Vec<String> = text.split(',').map(str::to_string).collect();
        assert_eq!(split(text, ','), parts, "{text:?}");
        assert_eq!(join_with(&parts, ","), text);
    }
    for text in ["", "\n", "a", "a\n", "a\r\nb", "a\r", "\r\n\r", "a\n\nb\n"] {
        let parts: Vec<String> = text.lines().map(str::to_string).collect();
        assert_eq!(lines(text), parts, "{text:?}");
    }
    assert_eq!(split_list(" a , ,b,"), vec!["a", "b"]);
}

#[test]
fn replacing_texts() {
    for (text, from, to) in [
        ("aaaa", "aa", "b"), ("aaa", "aa", "b"), ("abc", "x", "y"), ("éaé", "é", "ee"),
        ("", "x", "y"),
    ] {
        assert_eq!(replace(text, from, to), text.replace(from, to), "{text} {from}");
    }
    assert_eq!(replace("ab", "", "-"), "ab");
}

#[test]
fn order_of_texts() {
    for (a, b) in [("", "a"), ("a", "ab"), ("a", "b"), ("Z", "a"), ("é", "😀"), ("a", "a")] {
        assert_eq!(is_before(a, b), a < b);
        assert_eq!(is_before(b, a), b < a);
    }
}

#[test]
fn joining_paths() {
    for (dir, name) in [("/a", "b"), ("/a/", "b"), ("", "b"), ("/a", "/b"), ("a", "b/c")] {
        let joined = std::path::Path::new(dir).join(name);
        assert_eq!(join_path(dir, name), joined.to_str().unwrap(), "{dir} {name}");
    }
}

#[test]
fn members_of_values() {
    let value = Json::object(vec![
        ("a".to_string(), Json::text("x")),
        ("n".to_string(), Json::unsigned(7)),
        ("big".to_string(), Json::unsigned(u64::MAX)),
        (
            "in".to_string(),
            Json::object(vec![("b".to_string(), Json::text("y"))]),
        ),
    ]);
    assert_eq!(value.text_at("a"), Some("x"));
    assert_eq!(value.text_at("n"), None);
    assert_eq!(value.text_at2("in", "b"), Some("y"));
    assert_eq!(value.get("n").unwrap().as_i64(), Some(7));
    assert_eq!(
        value.get("big"),
        Some(&Json::Number(u64::MAX.to_string()))
    );
    assert!(value.get("none").is_none() && Json::Null.get("a").is_none());
    assert!(value.as_array().is_none() && value.as_str().is_none());
    assert_eq!(value.copy(), value);
}
