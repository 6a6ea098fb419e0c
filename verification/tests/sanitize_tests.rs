use interaction_gateway::json::JsonValue;
use interaction_gateway::json_parse::parse_json;
use interaction_gateway::json_text::to_json_text;
use interaction_gateway::sanitize::sanitize_interaction;

fn sanitize_text(text: &str) -> String {
    let v = parse_json(&text.as_bytes().to_vec()).expect("input should parse");
    String::from_utf8(to_json_text(&sanitize_interaction(v))).unwrap()
}

#[test]
fn drops_the_token_and_unknown_keys() {
    let out = sanitize_text(
        "{\"type\":2,\"token\":\"secret\",\"id\":\"42\",\"version\":1,\
         \"data\":{\"name\":\"ping\",\"token\":\"inner\"},\"member\":{\"nick\":\"x\"}}",
    );
    // The top-level bearer token and its value are gone.
    assert!(!out.contains("secret"));
    assert!(!out.contains("version"));
    // Allowed keys survive in order, values untouched; nested values are
    // not inspected, so an inner key named like the credential stays.
    assert_eq!(
        out,
        "{\"type\":2,\"id\":\"42\",\"data\":{\"name\":\"ping\",\"token\":\"inner\"},\
         \"member\":{\"nick\":\"x\"}}"
    );
}

#[test]
fn keeps_exactly_the_allow_list_intersection() {
    let out = sanitize_text(
        "{\"application_id\":\"a\",\"guild_id\":\"g\",\"channel_id\":\"c\",\"user\":null,\
         \"locale\":\"en\",\"guild_locale\":\"de\",\"extra\":true}",
    );
    assert_eq!(
        out,
        "{\"application_id\":\"a\",\"guild_id\":\"g\",\"channel_id\":\"c\",\"user\":null,\
         \"locale\":\"en\",\"guild_locale\":\"de\"}"
    );
}

#[test]
fn missing_keys_are_simply_omitted() {
    assert_eq!(sanitize_text("{}"), "{}");
    assert_eq!(sanitize_text("{\"token\":\"secret\"}"), "{}");
}

#[test]
fn non_objects_become_the_empty_object() {
    let v = parse_json(&b"[1,2]".to_vec()).unwrap();
    let out = String::from_utf8(to_json_text(&sanitize_interaction(v))).unwrap();
    assert_eq!(out, "{}");
}

#[test]
fn sanitizing_twice_changes_nothing() {
    let text = "{\"type\":2,\"token\":\"secret\",\"id\":\"42\",\"data\":{\"name\":\"p\"}}";
    let once = sanitize_text(text);
    let twice = sanitize_text(&once);
    assert_eq!(once, twice);
}

#[test]
fn duplicate_allowed_keys_all_survive() {
    let v = parse_json(&b"{\"id\":\"a\",\"id\":\"b\",\"token\":\"s\"}".to_vec()).unwrap();
    let out = String::from_utf8(to_json_text(&sanitize_interaction(v))).unwrap();
    assert_eq!(out, "{\"id\":\"a\",\"id\":\"b\"}");
}

#[test]
fn formats_interaction_numbers() {
    let render = |v: JsonValue| String::from_utf8(to_json_text(&v)).unwrap();
    assert_eq!(render(JsonValue::Int(0)), "0");
    assert_eq!(render(JsonValue::Int(-12034)), "-12034");
    assert_eq!(render(JsonValue::Int(i64::MAX)), "9223372036854775807");
    assert_eq!(render(JsonValue::Int(i64::MIN)), "-9223372036854775808");
}
