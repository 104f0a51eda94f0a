use mh::digest::{hash_text, hex_of};
use mh::engine::{take_exception, throw_format, JSValue, VmError};
use mh::identity::AgentId;
use mh::json::Json;
use mh::text::{
    bounded_text, decimal_text, find_from, hex16, is_before, join, lines_text, parse_u64,
    signed_text, split_text, to_chars, trim, words_text,
};

fn strings(items: &[&str]) -> Vec<String> {
    items.iter().map(|i| i.to_string()).collect()
}

#[test]
fn texts_are_cut_and_joined() {
    assert_eq!(trim(" \t a b \n"), "a b");
    assert_eq!(lines_text("a\r\nb\n\nc"), strings(&["a", "b", "", "c"]));
    assert_eq!(lines_text(""), strings(&[]));
    assert_eq!(lines_text("a\n"), strings(&["a"]));
    assert_eq!(words_text("  a\tb  c "), strings(&["a", "b", "c"]));
    assert_eq!(split_text("a,,b", ','), strings(&["a", "", "b"]));
    assert_eq!(join(&strings(&["a", "b"]), ", "), "a, b");
    assert!(is_before("a", "b") && is_before("a", "ab") && !is_before("b", "a"));
    assert_eq!(find_from(&to_chars("abcabc"), &to_chars("ca"), 0), Some(2));
}

#[test]
fn numbers_are_written_and_read() {
    assert_eq!(decimal_text(0), "0");
    assert_eq!(decimal_text(u64::MAX), "18446744073709551615");
    assert_eq!(signed_text(i64::MIN), "-9223372036854775808");
    assert_eq!(hex16(255), "00000000000000ff");
    assert_eq!(parse_u64("+42").ok(), Some(42));
    assert_eq!(parse_u64("18446744073709551615").ok(), Some(u64::MAX));
    for bad in ["", "+", "-1", "18446744073709551616", "4 "] {
        let fault = parse_u64(bad).unwrap_err();
        assert_eq!(fault.message(), bad.parse::<u64>().unwrap_err().to_string());
    }
}

#[test]
fn long_texts_are_bounded_at_a_character() {
    assert_eq!(bounded_text("short", 64), "short");
    let cut = bounded_text(&"é".repeat(40), 21);
    assert!(cut.contains("<truncated>"));
    assert!(cut.starts_with('é'));
}

#[test]
fn documents_are_read_by_place() {
    let value = Json::parse(" { \"b\" : [1, true, \"x\\n\"], \"a\" : null } ").unwrap();
    assert_eq!(value.text, "{\"a\":null,\"b\":[1,true,\"x\\n\"]}");
    assert_eq!(value.number_at("/b/0"), Some(1));
    assert_eq!(value.bool_at("/b/1"), Some(true));
    assert_eq!(value.str_at("/b/2"), Some("x\n".to_string()));
    assert_eq!(value.str_at("/missing"), None);
    assert!(!value.is_null());
    assert!(Json::null().is_null());
    assert_eq!(Json { text: "{\"a\":1}".to_string() }.pretty_text(), "{\n  \"a\": 1\n}");
    assert_eq!(Json { text: "nope".to_string() }.compact_text(), "null");
    let error = Json::parse("{").unwrap_err();
    assert_eq!(error, serde_json::from_str::<serde_json::Value>("{").unwrap_err().to_string());
}

#[test]
fn content_is_hashed() {
    assert_eq!(hex_of(&vec![0, 15, 255]), "000fff");
    assert_eq!(
        hash_text(b""),
        "e3b0c44298fc1c149afbf4c8996fb92427ae41e4649b934ca495991b7852b855"
    );
    assert_ne!(hash_text(b"a"), hash_text(b"b"));
}

#[test]
fn engine_values_are_told_apart() {
    assert!(JSValue::exception().is_exception());
    assert!(!JSValue::null().is_exception());
    assert_ne!(JSValue::bool(true), JSValue::bool(false));
    assert_ne!(JSValue::undefined(), JSValue::null());
    assert_eq!(throw_format("100% sure"), "100%% sure\0");
    let thrown = take_exception(
        JSValue::exception(),
        Some("TypeError".to_string()),
        Some("TypeError: x".to_string()),
    );
    assert!(matches!(thrown, VmError::Exception(_)));
    assert!(!VmError::OutOfMemory.message().is_empty());
    assert!(AgentId::root().is_root());
    assert!(!AgentId(1).is_root());
}
