use obs_chzzk_extension::json::{JsonNumber, JsonValue};
use obs_chzzk_extension::system::unix_now_ms;
use obs_chzzk_extension::text::{
    ascii_lowercase, chars_of, is_blank, join_strings, push_decimal, push_decimal_i64,
    push_hex2_upper, push_hex_lower, replace_str, trim_string,
};

#[test]
fn trimming_uses_unicode_whitespace() {
    assert_eq!(trim_string("\u{3000} a b \t\n"), "a b");
    assert!(is_blank(" \u{a0}\u{2003}"));
    assert!(!is_blank(" x "));
    assert_eq!(chars_of("치z"), vec!['치', 'z']);
}

#[test]
fn ascii_case_folding_leaves_other_letters() {
    assert_eq!(ascii_lowercase("WaRNing É"), "warning É");
}

#[test]
fn numbers_are_written_in_decimal_and_hex() {
    let mut s = String::new();
    push_decimal(&mut s, 0);
    s.push(' ');
    push_decimal(&mut s, 18446744073709551615);
    s.push(' ');
    push_decimal_i64(&mut s, -42);
    s.push(' ');
    push_hex_lower(&mut s, 0xbeef);
    s.push(' ');
    push_hex2_upper(&mut s, 0x0a);
    assert_eq!(s, "0 18446744073709551615 -42 beef 0A");
}

#[test]
fn joining_and_replacing() {
    let list = vec!["a".to_string(), "b".to_string(), "c".to_string()];
    assert_eq!(join_strings(&list, ", "), "a, b, c");
    assert_eq!(join_strings(&Vec::new(), ", "), "");
    assert_eq!(replace_str("{type}-{type}", "{type}", "480"), "480-480");
    assert_eq!(replace_str("aaa", "aa", "b"), "ba");
}

#[test]
fn json_accessors_read_their_kind_only() {
    let v = JsonValue::Object(vec![
        ("s".to_string(), JsonValue::Str("x".to_string())),
        ("n".to_string(), JsonValue::Number(JsonNumber { text: "7".to_string(), int_value: Some(7) })),
        ("f".to_string(), JsonValue::Number(JsonNumber { text: "1.5".to_string(), int_value: None })),
        ("b".to_string(), JsonValue::Bool(true)),
        ("z".to_string(), JsonValue::Null),
        ("s".to_string(), JsonValue::Str("second".to_string())),
    ]);
    assert_eq!(v.get("s").and_then(|x| x.as_str()).cloned(), Some("x".to_string()));
    assert_eq!(v.get("n").and_then(|x| x.as_i64()), Some(7));
    assert_eq!(v.get("f").and_then(|x| x.as_i64()), None);
    assert_eq!(v.get("b").and_then(|x| x.as_bool()), Some(true));
    assert!(v.get("z").unwrap().is_null());
    assert!(v.get("missing").is_none());
    assert!(v.as_array().is_none());
    assert!(JsonValue::Str("x".to_string()).get("s").is_none());
}

#[test]
fn the_clock_reads_after_the_epoch() {
    assert!(unix_now_ms() > 1_600_000_000_000);
}
