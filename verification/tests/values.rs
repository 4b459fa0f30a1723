use gemini_codec::common::text_from_blocks;
use gemini_codec::json::{json_float, json_i64, json_u64, JsonObject, JsonValue};
use gemini_codec::llm::ContentBlock;
use gemini_codec::number::{FiniteFloat, Float};
use gemini_codec::text::{
    ascii_lowercase, decimal_text, is_digits, padded_decimal_text, split_once, str_eq, strip_prefix,
    strip_suffix,
};
use gemini_codec::util::{json_string, stable_id};
use gemini_codec::wire::{from_serde, parse, render, to_serde};

fn serde(text: &str) -> serde_json::Value {
    serde_json::from_str(text).unwrap()
}

fn value(text: &str) -> JsonValue {
    from_serde(serde(text))
}

#[test]
fn values_come_back_from_serde() {
    let all = r#"{"a":[null,true,-3,18446744073709551615,1.5,"x\n"],"b":{"":{}},"c":[]}"#;
    assert_eq!(to_serde(&value(all)), serde(all));
}

#[test]
fn the_last_field_of_a_name_counts() {
    let o = JsonObject {
        entries: vec![
            ("a".to_string(), JsonValue::Bool(false)),
            ("b".to_string(), JsonValue::Null),
            ("a".to_string(), JsonValue::Bool(true)),
        ],
    };
    assert!(matches!(o.get("a"), Some(JsonValue::Bool(true))));
    assert_eq!(to_serde(&JsonValue::Object(o.clone())), serde(r#"{"a":true,"b":null}"#));
    assert_eq!(render(&JsonValue::Object(o)), r#"{"a":true,"b":null}"#);
}

#[test]
fn letters_are_lowered() {
    assert_eq!(
        ascii_lowercase("ABCDEFGHIJKLMNOPQRSTUVWXYZ"),
        "abcdefghijklmnopqrstuvwxyz"
    );
    let mixed = "aZ@[`{ Äé中😀\u{0}Q";
    assert_eq!(ascii_lowercase(mixed), mixed.to_ascii_lowercase());
    assert_eq!(ascii_lowercase(""), "");
}

#[test]
fn fields_are_set_and_taken_out() {
    let mut o = JsonObject::new();
    assert!(o.is_empty());
    o.insert("a", JsonValue::Bool(true));
    o.insert("b", JsonValue::Null);
    o.insert("a", JsonValue::Bool(false));
    assert_eq!(to_serde(&JsonValue::Object(o.clone())), serde(r#"{"a":false,"b":null}"#));
    o.remove("a");
    assert!(o.get("a").is_none());
    o.remove("a");
    o.remove("b");
    assert!(o.is_empty());
}

#[test]
fn text_is_parsed_and_rendered() {
    assert_eq!(to_serde(&parse(" [1, {\"a\" : 2}] ").unwrap()), serde(r#"[1,{"a":2}]"#));
    assert!(parse("{").is_none());
    assert!(parse("").is_none());
    assert_eq!(render(&value(r#"{"b":1,"a":[true,"é\""]}"#)), r#"{"a":[true,"é\""],"b":1}"#);
}

#[test]
fn exact_values_read_back() {
    let v = value(r#"{"a":[-1,0,18446744073709551615,"\u0000"],"b":{"c":null}}"#);
    assert_eq!(to_serde(&parse(render(&v).as_str()).unwrap()), to_serde(&v));
}

#[test]
fn the_parser_follows_as_deep_as_stated() {
    let deep = |n: usize| format!("{}{}", "[".repeat(n), "]".repeat(n));
    assert!(parse(deep(127).as_str()).is_some());
    assert!(parse(deep(128).as_str()).is_none());
}

#[test]
fn strings_are_their_own_text() {
    assert_eq!(json_string(&value(r#""a \"b\"""#)), "a \"b\"");
    assert_eq!(json_string(&value(r#"{"a":1}"#)), r#"{"a":1}"#);
    assert_eq!(json_string(&JsonValue::Null), "null");
}

#[test]
fn integers_are_read_within_their_range() {
    assert_eq!(json_u64(Some(&value("18446744073709551615"))), Some(u64::MAX));
    assert_eq!(json_u64(Some(&value("-1"))), None);
    assert_eq!(json_u64(Some(&value("1.0"))), None);
    assert_eq!(json_i64(Some(&value("-9223372036854775808"))), Some(i64::MIN));
    assert_eq!(json_i64(Some(&value("9223372036854775807"))), Some(i64::MAX));
    assert_eq!(json_i64(Some(&value("9223372036854775808"))), None);
    assert_eq!(json_i64(Some(&value("\"1\""))), None);
    assert_eq!(json_i64(None), None);
}

#[test]
fn integers_are_read_in_floating_point() {
    for (text, expected) in
        [("2", 2.0), ("-7", -7.0), ("18446744073709551615", 18446744073709551615.0)]
    {
        match json_float(Some(&value(text))) {
            Some(Float::Finite(x)) => assert_eq!(x.number().as_f64(), Some(expected)),
            other => panic!("{other:?}"),
        }
    }
    match json_float(Some(&value("0.25"))) {
        Some(Float::Finite(x)) => assert_eq!(x.number().as_f64(), Some(0.25)),
        other => panic!("{other:?}"),
    }
    assert!(json_float(Some(&value("\"1\""))).is_none());
}

#[test]
fn an_integer_is_no_floating_point_number() {
    assert!(FiniteFloat::new(serde_json::Number::from(3)).is_none());
    assert!(FiniteFloat::new(serde_json::Number::from_f64(3.0).unwrap()).is_some());
}

#[test]
fn texts_are_compared_and_cut() {
    assert!(str_eq("", ""));
    assert!(str_eq("äöü", "äöü"));
    assert!(!str_eq("abc", "abd"));
    assert!(!str_eq("abc", "ab"));
    assert_eq!(split_once("ä/ö/ü", '/'), Some(("ä", "ö/ü")));
    assert_eq!(split_once("abc", '/'), None);
    assert_eq!(strip_prefix("data:x", "data:"), Some("x"));
    assert_eq!(strip_prefix("dat", "data:"), None);
    assert_eq!(strip_suffix("x;base64", ";base64"), Some("x"));
    assert_eq!(strip_suffix("x", ";base64"), None);
    assert!(is_digits("0189"));
    assert!(is_digits(""));
    assert!(!is_digits("01٣"));
}

#[test]
fn numbers_are_written_in_decimal() {
    assert_eq!(decimal_text(0), "0");
    assert_eq!(decimal_text(1090), "1090");
    assert_eq!(decimal_text(u128::MAX), "340282366920938463463374607431768211455");
    assert_eq!(padded_decimal_text(42, 8), "00000042");
    assert_eq!(padded_decimal_text(123456789, 8), "123456789");
    assert_eq!(stable_id("call", 7), "call_00000007");
}

#[test]
fn text_blocks_are_joined() {
    let text = |t: &str| ContentBlock::Text { text: t.to_string() };
    assert_eq!(text_from_blocks(&vec![], "\n"), "");
    assert_eq!(text_from_blocks(&vec![text("a")], "\n"), "a");
    let blocks = vec![
        text("a"),
        ContentBlock::Reasoning { text: "no".to_string(), signature: None, details: vec![] },
        ContentBlock::Refusal { text: "b".to_string() },
        text(""),
    ];
    assert_eq!(text_from_blocks(&blocks, "\n"), "a\nb\n");
}
