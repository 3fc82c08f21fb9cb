use hedge_system_ws::json::JsonValue;
use hedge_system_ws::json::u64_string;
use hedge_system_ws::parse::parse_json;

fn get<'a>(v: &'a JsonValue, key: &str) -> Option<&'a JsonValue> {
    v.get(&key.to_string())
}

fn get_str<'a>(v: &'a JsonValue, key: &str) -> Option<&'a str> {
    match get(v, key) {
        Some(f) => f.as_str().map(|s| s.as_str()),
        None => None,
    }
}

#[test]
fn parses_a_flat_object() {
    let v = parse_json("{\"type\":\"AUTH\",\"token\":\"secret\"}").unwrap();
    assert_eq!(get_str(&v, "type"), Some("AUTH"));
    assert_eq!(get_str(&v, "token"), Some("secret"));
    assert_eq!(get_str(&v, "missing"), None);
}

#[test]
fn parses_nested_values_and_whitespace() {
    let v = parse_json(" { \"a\" : [ 1 , 2.5e3 , null , true , \"x\" ] , \"b\" : { \"c\" : -7 } } ")
        .unwrap();
    match get(&v, "a") {
        Some(JsonValue::Arr(items)) => {
            assert_eq!(items.len(), 5);
            assert!(matches!(&items[0], JsonValue::Num(n) if n == "1"));
            assert!(matches!(&items[1], JsonValue::Num(n) if n == "2.5e3"));
            assert!(matches!(&items[2], JsonValue::Null));
            assert!(matches!(&items[3], JsonValue::Bool(true)));
            assert!(matches!(&items[4], JsonValue::Str(s) if s == "x"));
        }
        other => panic!("expected an array, got {:?}", other.is_some()),
    }
    let b = get(&v, "b").unwrap();
    assert!(matches!(get(b, "c"), Some(JsonValue::Num(n)) if n == "-7"));
}

#[test]
fn rejects_malformed_text() {
    assert!(parse_json("").is_none());
    assert!(parse_json("{").is_none());
    assert!(parse_json("{\"a\":}").is_none());
    assert!(parse_json("{\"a\":1,}").is_none());
    assert!(parse_json("[1 2]").is_none());
    assert!(parse_json("not json").is_none());
    assert!(parse_json("{\"a\":1} trailing").is_none());
    assert!(parse_json("\"unterminated").is_none());
}

#[test]
fn rejects_malformed_numbers() {
    assert!(parse_json("01").is_none());
    assert!(parse_json("1.").is_none());
    assert!(parse_json("-").is_none());
    assert!(parse_json("1e").is_none());
    assert!(parse_json("1").is_some());
    assert!(parse_json("-0.5e+10").is_some());
}

#[test]
fn decodes_string_escapes() {
    let v = parse_json("\"a\\n\\t\\\\\\\"\\u0041\"").unwrap();
    assert!(matches!(&v, JsonValue::Str(s) if s == "a\n\t\\\"A"));
}

#[test]
fn decodes_surrogate_pairs() {
    let v = parse_json("\"\\ud83d\\ude00\"").unwrap();
    assert!(matches!(&v, JsonValue::Str(s) if s == "\u{1F600}"));
}

#[test]
fn rejects_lone_surrogates_and_bad_escapes() {
    assert!(parse_json("\"\\ud83d\"").is_none());
    assert!(parse_json("\"\\ude00\"").is_none());
    assert!(parse_json("\"\\q\"").is_none());
    assert!(parse_json("\"\\u12\"").is_none());
}

#[test]
fn rejects_unescaped_control_characters() {
    assert!(parse_json("\"a\u{0}b\"").is_none());
    assert!(parse_json("\"a\nb\"").is_none());
}

#[test]
fn later_duplicate_key_wins() {
    let v = parse_json("{\"a\":1,\"a\":2}").unwrap();
    assert!(matches!(get(&v, "a"), Some(JsonValue::Num(n)) if n == "2"));
}

#[test]
fn serializes_exactly() {
    let doc = JsonValue::Obj(vec![
        ("a".to_string(), JsonValue::Num("1".to_string())),
        ("b".to_string(), JsonValue::Str("x\"y\\z".to_string())),
        (
            "c".to_string(),
            JsonValue::Arr(vec![JsonValue::Null, JsonValue::Bool(false)]),
        ),
    ]);
    assert_eq!(
        doc.to_json_string(),
        "{\"a\":1,\"b\":\"x\\\"y\\\\z\",\"c\":[null,false]}"
    );
}

#[test]
fn serializes_control_characters_as_unicode_escapes() {
    let doc = JsonValue::Str("a\u{1}\n".to_string());
    assert_eq!(doc.to_json_string(), "\"a\\u0001\\n\"");
}

#[test]
fn serialization_round_trips() {
    let text = "{\"t\":\"PRICE\",\"bid\":1.25,\"flags\":[true,null],\"note\":\"a\\nb\"}";
    let v = parse_json(text).unwrap();
    let out = v.to_json_string();
    assert_eq!(out, text.replace(' ', ""));
    let again = parse_json(&out).unwrap();
    assert_eq!(again.to_json_string(), out);
}

#[test]
fn formats_decimals() {
    assert_eq!(u64_string(0), "0");
    assert_eq!(u64_string(7), "7");
    assert_eq!(u64_string(1024), "1024");
    assert_eq!(u64_string(18446744073709551615), "18446744073709551615");
}
