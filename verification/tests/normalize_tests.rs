use webhook_capture::normalize::{
    headers_to_json, normalize_header_value, normalize_headers, parse_payload, payload_text,
    Payload, RawHeader,
};

fn raw(name: &str, value: &[u8]) -> RawHeader {
    RawHeader { name: name.as_bytes().to_vec(), value: value.to_vec() }
}

#[test]
fn valid_json_is_reprinted_canonically() {
    let body = b"{\"a\": 1}".to_vec();
    match parse_payload(&body) {
        Payload::Json(t) => assert_eq!(t, b"{\"a\":1}".to_vec()),
        Payload::Anomaly(_) => panic!("valid JSON must parse"),
    }
}

#[test]
fn non_json_becomes_anomaly_wrapper() {
    let body = b"not-json".to_vec();
    let p = parse_payload(&body);
    match &p {
        Payload::Anomaly(t) => assert_eq!(t, &b"not-json".to_vec()),
        Payload::Json(_) => panic!("not-json must not parse"),
    }
    assert_eq!(payload_text(&p), b"{\"anomaly_payload\":\"not-json\"}".to_vec());
}

#[test]
fn truncated_json_becomes_anomaly() {
    let body = b"{\"a\":".to_vec();
    match parse_payload(&body) {
        Payload::Anomaly(t) => assert_eq!(t, b"{\"a\":".to_vec()),
        Payload::Json(_) => panic!("truncated JSON must not parse"),
    }
}

#[test]
fn invalid_utf8_is_decoded_lossily() {
    let body = vec![0xff, 0xfe];
    match parse_payload(&body) {
        Payload::Anomaly(t) => assert_eq!(t, "\u{fffd}\u{fffd}".as_bytes().to_vec()),
        Payload::Json(_) => panic!("raw bytes must not parse"),
    }
}

#[test]
fn normalization_is_idempotent_on_arbitrary_bytes() {
    let cases: Vec<Vec<u8>> = vec![
        b"{\"a\":1}".to_vec(),
        b"not-json".to_vec(),
        b"{\"a\":".to_vec(),
        vec![0xff, 0x00, 0x9f, 0x92],
        Vec::new(),
        vec![0xe2, 0x82],
    ];
    for body in cases {
        let first = payload_text(&parse_payload(&body));
        let second = payload_text(&parse_payload(&body));
        assert_eq!(first, second);
    }
}

#[test]
fn header_normalization_is_idempotent() {
    let values: Vec<Vec<u8>> = vec![
        b"application/json".to_vec(),
        vec![0xc3, 0x28],
        Vec::new(),
    ];
    for v in values {
        assert_eq!(normalize_header_value(&v), normalize_header_value(&v));
    }
}

#[test]
fn utf8_header_value_is_kept() {
    let v = b"application/json".to_vec();
    assert_eq!(normalize_header_value(&v), v);
}

#[test]
fn binary_header_value_becomes_placeholder() {
    let v = vec![0xc3, 0x28, 0xff, 0x00];
    assert_eq!(normalize_header_value(&v), b"<binary: 4 bytes>".to_vec());
}

#[test]
fn headers_object_keeps_arrival_order() {
    let hs = vec![raw("b-second", b"2"), raw("a-first", b"1")];
    let text = headers_to_json(&hs);
    assert_eq!(text, b"{\"b-second\":\"2\",\"a-first\":\"1\"}".to_vec());
}

#[test]
fn empty_header_set_is_empty_object() {
    assert_eq!(headers_to_json(&Vec::new()), b"{}".to_vec());
}

#[test]
fn repeated_header_name_keeps_the_last_value() {
    let hs = vec![raw("x-k", b"1"), raw("other", b"x"), raw("x-k", b"2")];
    let text = headers_to_json(&hs);
    assert_eq!(text, b"{\"other\":\"x\",\"x-k\":\"2\"}".to_vec());
    let normalized = normalize_headers(&hs);
    assert_eq!(normalized.len(), 2);
    assert_eq!(normalized[1].name, b"x-k".to_vec());
    assert_eq!(normalized[1].text, b"2".to_vec());
}

#[test]
fn header_values_are_escaped() {
    let hs = vec![raw("x-odd", b"a\"b\\c\nd")];
    let text = headers_to_json(&hs);
    assert_eq!(text, b"{\"x-odd\":\"a\\\"b\\\\c\\nd\"}".to_vec());
}
