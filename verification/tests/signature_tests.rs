use ed25519_dalek::{Signer, SigningKey};
use interaction_gateway::signature::validate_signature;
use interaction_gateway::numeric::parse_i64;
use interaction_gateway::hexcode::hex_decode;

const NOW: i64 = 1700000003;

fn keypair() -> (SigningKey, Vec<u8>) {
    let sk = SigningKey::from_bytes(&[7u8; 32]);
    let key = sk.verifying_key().to_bytes().to_vec();
    (sk, key)
}

fn sign(sk: &SigningKey, ts: &str, body: &str) -> Vec<u8> {
    let msg = format!("{}{}", ts, body);
    hex::encode(sk.sign(msg.as_bytes()).to_bytes()).into_bytes()
}

fn check(ts: &str, body: &str, sig_hex: &[u8], now: i64) -> bool {
    let (_, key) = keypair();
    validate_signature(
        &key,
        &sig_hex.to_vec(),
        &ts.as_bytes().to_vec(),
        &body.as_bytes().to_vec(),
        now,
    )
}

#[test]
fn accepts_a_fresh_correct_signature() {
    let (sk, _) = keypair();
    let body = "{\"type\":1}";
    let ts = "1700000000";
    let sig = sign(&sk, ts, body);
    assert!(check(ts, body, &sig, NOW));
}

#[test]
fn accepts_up_to_the_window_and_rejects_past_it() {
    let (sk, _) = keypair();
    let body = "{\"type\":1}";
    // Five seconds old: still fresh. Six seconds old: stale.
    let fresh = "1699999998";
    let sig = sign(&sk, fresh, body);
    assert!(check(fresh, body, &sig, NOW));
    let stale = "1699999997";
    let sig = sign(&sk, stale, body);
    assert!(!check(stale, body, &sig, NOW));
    // The check is one-sided: a future timestamp is not rejected.
    let future = "1700000009";
    let sig = sign(&sk, future, body);
    assert!(check(future, body, &sig, NOW));
}

#[test]
fn rejects_wrong_body_and_wrong_key() {
    let (sk, _) = keypair();
    let ts = "1700000000";
    let sig = sign(&sk, ts, "{\"type\":1}");
    assert!(!check(ts, "{\"type\":2}", &sig, NOW));
    let other = SigningKey::from_bytes(&[9u8; 32]);
    let sig = sign(&other, ts, "{\"type\":1}");
    assert!(!check(ts, "{\"type\":1}", &sig, NOW));
}

#[test]
fn rejects_malformed_signature_text() {
    let (sk, _) = keypair();
    let ts = "1700000000";
    let body = "{\"type\":1}";
    let good = sign(&sk, ts, body);
    // Truncated hex, odd length, non-hex bytes, wrong decoded length.
    assert!(!check(ts, body, &good[..126], NOW));
    assert!(!check(ts, body, &good[..127], NOW));
    assert!(!check(ts, body, b"zz", NOW));
    assert!(!check(ts, body, b"abcd", NOW));
    assert!(!check(ts, body, b"", NOW));
}

#[test]
fn rejects_unparsable_timestamps() {
    let (sk, _) = keypair();
    let body = "{\"type\":1}";
    for ts in ["", "abc", "17x0", "170000000000000000000000"] {
        let sig = sign(&sk, ts, body);
        assert!(!check(ts, body, &sig, NOW), "timestamp {:?} should fail", ts);
    }
}

#[test]
fn parses_decimal_timestamps() {
    let p = |s: &str| parse_i64(&s.as_bytes().to_vec());
    assert_eq!(p("1700000000"), Some(1700000000));
    assert_eq!(p("-5"), Some(-5));
    assert_eq!(p("+5"), Some(5));
    assert_eq!(p("0007"), Some(7));
    assert_eq!(p("9223372036854775807"), Some(i64::MAX));
    assert_eq!(p("-9223372036854775808"), Some(i64::MIN));
    assert_eq!(p("9223372036854775808"), None);
    assert_eq!(p("-9223372036854775809"), None);
    assert_eq!(p(""), None);
    assert_eq!(p("-"), None);
    assert_eq!(p("12 "), None);
    assert_eq!(p("1.5"), None);
}

#[test]
fn decodes_hex() {
    let d = |s: &str| hex_decode(&s.as_bytes().to_vec());
    assert_eq!(d("00ff10Ab"), Some(vec![0x00, 0xff, 0x10, 0xab]));
    assert_eq!(d(""), Some(vec![]));
    assert_eq!(d("abc"), None);
    assert_eq!(d("zz"), None);
    let roundtrip = hex::encode([1u8, 2, 250, 16]);
    assert_eq!(d(&roundtrip), Some(vec![1u8, 2, 250, 16]));
}
