use ed25519_dalek::{Signer, SigningKey};
use interaction_gateway::dispatch::{handle_interaction, response_body, response_status, health_body,
    Outcome};
use interaction_gateway::envelope::{publish_plan, PublishConfig};
use interaction_gateway::json::JsonValue;
use interaction_gateway::json_parse::parse_json;

const NOW: i64 = 1700000003;
const TS: &str = "1700000000";

fn keypair() -> (SigningKey, Vec<u8>) {
    let sk = SigningKey::from_bytes(&[7u8; 32]);
    let key = sk.verifying_key().to_bytes().to_vec();
    (sk, key)
}

fn signed_call(ts: &str, body: &[u8], now: i64) -> Outcome {
    let (sk, key) = keypair();
    let mut msg = ts.as_bytes().to_vec();
    msg.extend_from_slice(body);
    let sig = hex::encode(sk.sign(&msg).to_bytes()).into_bytes();
    handle_interaction(&key, &sig, &ts.as_bytes().to_vec(), &body.to_vec(), now)
}

fn body_text(o: &Outcome) -> String {
    String::from_utf8(response_body(o)).unwrap()
}

#[test]
fn ping_answers_pong() {
    let o = signed_call(TS, b"{\"type\":1}", NOW);
    assert!(matches!(o, Outcome::Pong));
    assert_eq!(response_status(&o), 200);
    assert_eq!(body_text(&o), "{\"type\":1}");
}

#[test]
fn command_answers_deferred_and_publishes_sanitized() {
    let o = signed_call(TS, b"{\"type\":2,\"data\":{\"name\":\"ping\"},\"token\":\"secret\"}", NOW);
    assert_eq!(response_status(&o), 200);
    assert_eq!(body_text(&o), "{\"type\":5}");
    let interaction = match o {
        Outcome::Deferred(v) => v,
        _ => panic!("expected a deferred acknowledgment"),
    };
    let config = PublishConfig {
        host: b"localhost:8085".to_vec(),
        project: b"proj".to_vec(),
        topic: b"topic".to_vec(),
    };
    let env = publish_plan(&Some(config), interaction, &b"2023-11-14T22:13:23+00:00".to_vec())
        .expect("a complete destination must yield an envelope");
    assert_eq!(
        String::from_utf8(env.url).unwrap(),
        "http://localhost:8085/v1/projects/proj/topics/topic:publish"
    );
    let body = String::from_utf8(env.body).unwrap();
    // The envelope body must be well-formed JSON for the backend.
    let reparsed: Result<serde_json::Value, _> = serde_json::from_str(&body);
    assert!(reparsed.is_ok());
    assert!(!body.contains("token"));
    assert!(!body.contains("secret"));
    assert!(body.contains("\"command_name\":\"ping\""));
    assert!(body.contains("\"interaction_type\":\"2\""));
    assert!(body.contains("\"timestamp\":\"2023-11-14T22:13:23+00:00\""));
    // The data field holds the base64 of the sanitized interaction.
    let doc = parse_json(&body.clone().into_bytes()).expect("envelope body is valid JSON");
    let data_b64 = match &doc {
        JsonValue::Obj(fields) => match &fields[0].1 {
            JsonValue::Arr(msgs) => match &msgs[0] {
                JsonValue::Obj(inner) => match &inner[0].1 {
                    JsonValue::Str(s) => String::from_utf8(s.clone()).unwrap(),
                    _ => panic!("data is not a string"),
                },
                _ => panic!("message is not an object"),
            },
            _ => panic!("messages is not an array"),
        },
        _ => panic!("envelope body is not an object"),
    };
    let decoded = base64::Engine::decode(&base64::engine::general_purpose::STANDARD, data_b64)
        .expect("data decodes as base64");
    let sanitized = String::from_utf8(decoded).unwrap();
    assert_eq!(sanitized, "{\"type\":2,\"data\":{\"name\":\"ping\"}}");
}

#[test]
fn no_destination_publishes_nothing() {
    let v = parse_json(&b"{\"type\":2}".to_vec()).unwrap();
    assert!(publish_plan(&None, v, &b"t".to_vec()).is_none());
}

#[test]
fn non_object_json_is_rejected() {
    let o = signed_call(TS, b"null", NOW);
    assert!(matches!(o, Outcome::BadJson));
    assert_eq!(response_status(&o), 400);
    assert_eq!(body_text(&o), "{\"error\":\"invalid JSON\"}");
    let o = signed_call(TS, b"[1,2]", NOW);
    assert!(matches!(o, Outcome::BadJson));
    let o = signed_call(TS, b"{\"type\":", NOW);
    assert!(matches!(o, Outcome::BadJson));
}

#[test]
fn stale_timestamp_is_an_authentication_error() {
    // Six seconds old with an otherwise correct signature.
    let o = signed_call("1699999997", b"{\"type\":1}", NOW);
    assert!(matches!(o, Outcome::BadSignature));
    assert_eq!(response_status(&o), 401);
    assert_eq!(body_text(&o), "{\"error\":\"invalid signature\"}");
}

#[test]
fn wrong_signature_is_rejected() {
    let (_, key) = keypair();
    let o = handle_interaction(
        &key,
        &b"deadbeef".to_vec(),
        &TS.as_bytes().to_vec(),
        &b"{\"type\":1}".to_vec(),
        NOW,
    );
    assert!(matches!(o, Outcome::BadSignature));
}

#[test]
fn invalid_utf8_is_a_bad_encoding() {
    let (sk, key) = keypair();
    let body = vec![0xffu8, 0xfe];
    let mut msg = TS.as_bytes().to_vec();
    msg.extend_from_slice(&body);
    let sig = hex::encode(sk.sign(&msg).to_bytes()).into_bytes();
    let o = handle_interaction(&key, &sig, &TS.as_bytes().to_vec(), &body, NOW);
    assert!(matches!(o, Outcome::BadEncoding));
    assert_eq!(response_status(&o), 400);
    assert_eq!(body_text(&o), "{\"error\":\"invalid body encoding\"}");
}

#[test]
fn unknown_types_are_unsupported() {
    for body in [
        "{\"type\":3}".as_bytes(),
        "{\"type\":0}".as_bytes(),
        "{\"id\":\"1\"}".as_bytes(),
        "{\"type\":\"1\"}".as_bytes(),
        "{\"type\":null}".as_bytes(),
        "{\"type\":1.5}".as_bytes(),
    ] {
        let o = signed_call(TS, body, NOW);
        assert!(matches!(o, Outcome::UnsupportedType), "body {:?}", body);
        assert_eq!(response_status(&o), 400);
        assert_eq!(body_text(&o), "{\"error\":\"unsupported interaction type\"}");
    }
}

#[test]
fn command_with_a_float_option_is_served() {
    // Non-integer numbers anywhere in the payload are valid JSON and are
    // carried through to the publish envelope unchanged.
    let o = signed_call(TS, b"{\"type\":2,\"data\":{\"name\":\"roll\",\"value\":1.5}}", NOW);
    assert_eq!(response_status(&o), 200);
    assert_eq!(body_text(&o), "{\"type\":5}");
    let interaction = match o {
        Outcome::Deferred(v) => v,
        _ => panic!("expected a deferred acknowledgment"),
    };
    let config = PublishConfig {
        host: b"h".to_vec(),
        project: b"p".to_vec(),
        topic: b"t".to_vec(),
    };
    let env = publish_plan(&Some(config), interaction, &b"ts".to_vec()).unwrap();
    let body = String::from_utf8(env.body).unwrap();
    let data_b64 = body.split("\"data\":\"").nth(1).unwrap().split('\"').next().unwrap();
    let decoded = base64::Engine::decode(&base64::engine::general_purpose::STANDARD, data_b64)
        .expect("data decodes as base64");
    assert_eq!(
        String::from_utf8(decoded).unwrap(),
        "{\"type\":2,\"data\":{\"name\":\"roll\",\"value\":1.5}}"
    );
}

#[test]
fn health_answer_is_fixed() {
    assert_eq!(String::from_utf8(health_body()).unwrap(), "{\"status\":\"ok\"}");
}
