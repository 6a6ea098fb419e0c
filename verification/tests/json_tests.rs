use interaction_gateway::json::JsonValue;
use interaction_gateway::json_parse::parse_json;
use interaction_gateway::json_text::to_json_text;

fn parse(text: &str) -> Option<JsonValue> {
    parse_json(&text.as_bytes().to_vec())
}

fn render(v: &JsonValue) -> String {
    String::from_utf8(to_json_text(v)).unwrap()
}

#[test]
fn parses_scalars() {
    assert!(matches!(parse("null"), Some(JsonValue::Null)));
    assert!(matches!(parse("true"), Some(JsonValue::Bool(true))));
    assert!(matches!(parse("false"), Some(JsonValue::Bool(false))));
    assert!(matches!(parse("42"), Some(JsonValue::Int(42))));
    assert!(matches!(parse("-7"), Some(JsonValue::Int(-7))));
    assert!(matches!(parse("0"), Some(JsonValue::Int(0))));
}

#[test]
fn parses_strings_and_escapes() {
    match parse("\"ping\"") {
        Some(JsonValue::Str(s)) => assert_eq!(s, b"ping".to_vec()),
        other => panic!("unexpected: {:?}", other.map(|v| render(&v))),
    }
    match parse("\"a\\nb\\\"c\\\\d\\u0041\"") {
        Some(JsonValue::Str(s)) => assert_eq!(s, b"a\nb\"c\\dA".to_vec()),
        _ => panic!("escape parse failed"),
    }
    // Multi-byte escape becomes UTF-8.
    match parse("\"\\u00e9\"") {
        Some(JsonValue::Str(s)) => assert_eq!(s, "é".as_bytes().to_vec()),
        _ => panic!("unicode escape failed"),
    }
}

#[test]
fn parses_nested_structures() {
    let v = parse(" { \"type\" : 2 , \"data\" : { \"name\" : \"ping\" } , \"ids\" : [ 1 , 2 ] } ")
        .expect("object should parse");
    assert_eq!(render(&v), "{\"type\":2,\"data\":{\"name\":\"ping\"},\"ids\":[1,2]}");
}

#[test]
fn rejects_malformed_documents() {
    assert!(parse("").is_none());
    assert!(parse("{").is_none());
    assert!(parse("nul").is_none());
    assert!(parse("{\"a\":1,}").is_none());
    assert!(parse("1 2").is_none());
    assert!(parse("\"unterminated").is_none());
    assert!(parse("{\"a\" 1}").is_none());
    // Malformed numbers are rejected.
    assert!(parse("007").is_none());
    assert!(parse("1.").is_none());
    assert!(parse("1e").is_none());
    assert!(parse("1e+").is_none());
    assert!(parse("01.5").is_none());
    assert!(parse("-.5").is_none());
    assert!(parse(".5").is_none());
    // Unescaped control bytes and lone or half surrogates are rejected.
    assert!(parse("\"a\u{0}\"").is_none());
    assert!(parse("\"\\ud800\"").is_none());
    assert!(parse("\"\\udc00\"").is_none());
    assert!(parse("\"\\ud83dx\"").is_none());
    assert!(parse("\"\\ud83d\\u0041\"").is_none());
}

#[test]
fn integer_range_bounds() {
    assert!(matches!(parse("9223372036854775807"), Some(JsonValue::Int(i64::MAX))));
    assert!(matches!(parse("-9223372036854775808"), Some(JsonValue::Int(i64::MIN))));
    // Beyond i64 the number's text is kept verbatim.
    match parse("9223372036854775808") {
        Some(JsonValue::Num(t)) => assert_eq!(t, b"9223372036854775808".to_vec()),
        _ => panic!("expected a raw number"),
    }
    match parse("-9223372036854775809") {
        Some(JsonValue::Num(t)) => assert_eq!(t, b"-9223372036854775809".to_vec()),
        _ => panic!("expected a raw number"),
    }
}

#[test]
fn non_integer_numbers_keep_their_text() {
    for text in ["1.5", "-0.25", "1e3", "6.02e23", "2E-5", "0.0"] {
        match parse(text) {
            Some(v @ JsonValue::Num(_)) => assert_eq!(render(&v), text),
            other => panic!("{:?} for {:?}", other.map(|v| render(&v)), text),
        }
    }
    let v = parse("{\"type\":2,\"data\":{\"value\":1.5}}").unwrap();
    assert_eq!(render(&v), "{\"type\":2,\"data\":{\"value\":1.5}}");
}

#[test]
fn decodes_surrogate_pairs() {
    match parse("\"\\ud83d\\ude00\"") {
        Some(JsonValue::Str(b)) => assert_eq!(b, "\u{1f600}".as_bytes().to_vec()),
        _ => panic!("surrogate pair should decode"),
    }
}

#[test]
fn serializes_with_escapes() {
    let v = JsonValue::Obj(vec![(b"k\"ey".to_vec(), JsonValue::Str(b"a\\b\nc".to_vec()))]);
    assert_eq!(render(&v), "{\"k\\\"ey\":\"a\\\\b\\u000ac\"}");
}

#[test]
fn round_trips_a_payload() {
    let text = "{\"type\":2,\"id\":\"123\",\"data\":{\"name\":\"ping\"},\"token\":\"secret\"}";
    let v = parse(text).unwrap();
    assert_eq!(render(&v), text);
}

#[test]
fn duplicate_keys_read_last() {
    let v = parse("{\"type\":1,\"type\":2}").unwrap();
    assert_eq!(interaction_gateway::json::interaction_type(&v), Some(2));
}
