use showdown::message::split2;
use showdown::number::{parse_integer, push_decimal};
use showdown::text::{split_first_ascii, split_once, str_eq, strip_prefix, strip_suffix};

#[test]
fn split_at_the_first_separator() {
    assert_eq!(split_once("a|b|c", '|'), Some(("a", "b|c")));
    assert_eq!(split_once("|b", '|'), Some(("", "b")));
    assert_eq!(split_once("a|", '|'), Some(("a", "")));
    assert_eq!(split_once("|", '|'), Some(("", "")));
    assert_eq!(split_once("abc", '|'), None);
    assert_eq!(split_once("", '|'), None);
    assert_eq!(split_once("one\ntwo\n", '\n'), Some(("one", "two\n")));
}

#[test]
fn split_among_longer_characters() {
    assert_eq!(split_once("é|ü", '|'), Some(("é", "ü")));
    assert_eq!(split_once("日本語|テスト|✓", '|'), Some(("日本語", "テスト|✓")));
    assert_eq!(split_once("🙂🙂|", '|'), Some(("🙂🙂", "")));
    assert_eq!(split_once("ǀ｜¦", '|'), None);
    assert_eq!(split_once("ż|", 'z'), None);
}

#[test]
fn split2_without_separator_keeps_all_in_front() {
    assert_eq!(split2("abc"), ("abc", ""));
    assert_eq!(split2(""), ("", ""));
    assert_eq!(split2("a|b|c"), ("a", "b|c"));
}

#[test]
fn prefix_and_suffix() {
    assert_eq!(strip_prefix(">room", '>'), Some("room"));
    assert_eq!(strip_prefix(">", '>'), Some(""));
    assert_eq!(strip_prefix("room>", '>'), None);
    assert_eq!(strip_prefix("", '>'), None);
    assert_eq!(strip_prefix("»room", '>'), None);
    assert_eq!(strip_prefix(">»", '>'), Some("»"));
    assert_eq!(strip_suffix("line\n", '\n'), Some("line"));
    assert_eq!(strip_suffix("line\n\n", '\n'), Some("line\n"));
    assert_eq!(strip_suffix("\n", '\n'), Some(""));
    assert_eq!(strip_suffix("line", '\n'), None);
    assert_eq!(strip_suffix("", '\n'), None);
    assert_eq!(strip_suffix("\nline", '\n'), None);
    assert_eq!(strip_suffix("é\n", '\n'), Some("é"));
    assert_eq!(strip_suffix("né", 'n'), None);
    assert_eq!(strip_suffix("\u{10a}", '\n'), None);
}

#[test]
fn first_ascii_character() {
    assert_eq!(split_first_ascii("abc"), Some((b'a', "bc")));
    assert_eq!(split_first_ascii("7"), Some((b'7', "")));
    assert_eq!(split_first_ascii("\u{7f}é"), Some((0x7f, "é")));
    assert_eq!(split_first_ascii(""), None);
    assert_eq!(split_first_ascii("éa"), None);
    assert_eq!(split_first_ascii("\u{80}"), None);
}

#[test]
fn equal_texts() {
    assert!(str_eq("", ""));
    assert!(str_eq("c:", "c:"));
    assert!(str_eq("été", "été"));
    assert!(!str_eq("c:", "c"));
    assert!(!str_eq("c", "c:"));
    assert!(!str_eq("ab", "ba"));
    assert!(!str_eq("e", "é"));
}

#[test]
fn decimal_numerals() {
    let numeral = |n: u16| {
        let mut out = String::from("#");
        push_decimal(&mut out, n);
        out
    };
    assert_eq!(numeral(0), "#0");
    assert_eq!(numeral(9), "#9");
    assert_eq!(numeral(10), "#10");
    assert_eq!(numeral(443), "#443");
    assert_eq!(numeral(8000), "#8000");
    assert_eq!(numeral(65535), "#65535");
    for n in [1u16, 19, 100, 101, 999, 1000, 12345, 60000] {
        assert_eq!(numeral(n), format!("#{}", n));
    }
}

#[test]
fn integers_from_numerals() {
    assert_eq!(parse_integer("0"), Some(0));
    assert_eq!(parse_integer("1634571729"), Some(1634571729));
    assert_eq!(parse_integer("-1"), Some(-1));
    assert_eq!(parse_integer("+15"), Some(15));
    assert_eq!(parse_integer("007"), Some(7));
    assert_eq!(parse_integer("-0"), Some(0));
    assert_eq!(parse_integer("9223372036854775807"), Some(i64::MAX));
    assert_eq!(parse_integer("-9223372036854775808"), Some(i64::MIN));
    assert_eq!(parse_integer("00000000000000000000000000012"), Some(12));
}

#[test]
fn texts_that_are_no_integers() {
    for text in [
        "", "-", "+", "+-1", "--1", "1-", "1 ", " 1", "1.5", "1e3", "0x10", "12a", "a12", "١٢",
        "1_000", "9223372036854775808", "-9223372036854775809", "99999999999999999999999",
        "-99999999999999999999999", "92233720368547758070",
    ] {
        assert_eq!(parse_integer(text), None, "{:?}", text);
        assert_eq!(text.parse::<i64>().ok(), None, "{:?}", text);
    }
    for text in ["5", "-5", "+5", "0012", "-9223372036854775808"] {
        assert_eq!(parse_integer(text), text.parse::<i64>().ok());
    }
}
