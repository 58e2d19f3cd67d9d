use webhook_capture::normalize::RawHeader;
use webhook_capture::routes::{handle_webhook, process_request, AppState};
use webhook_capture::websocket::BroadcastOutcome;

fn json_headers() -> Vec<RawHeader> {
    vec![RawHeader {
        name: b"content-type".to_vec(),
        value: b"application/json".to_vec(),
    }]
}

#[test]
fn post_with_json_body_is_recorded_and_broadcast() {
    let mut state = AppState::new();
    let mut viewer = state.ws_handler.subscribe();
    let out = handle_webhook(
        &mut state,
        b"203.0.113.5".to_vec(),
        b"POST".to_vec(),
        b"/hooks/test".to_vec(),
        &json_headers(),
        &b"{\"a\":1}".to_vec(),
    );
    assert_eq!(out.status, 200);
    let text = String::from_utf8(out.text.clone()).unwrap();
    assert!(text.contains("\"method\":\"POST\""));
    assert!(text.contains("\"path\":\"/hooks/test\""));
    assert!(text.contains("\"payload\":{\"a\":1}"));
    assert!(text.contains("\"client_ip\":\"203.0.113.5\""));
    assert!(text.contains("\"headers\":{\"content-type\":\"application/json\"}"));
    assert!(text.starts_with("{\"timestamp\":\"20"));
    // The connected viewer receives exactly the serialized record.
    assert!(matches!(out.delivered, BroadcastOutcome::Delivered(1)));
    assert_eq!(viewer.try_recv().unwrap(), out.text);
    assert!(out.flushed.is_none());
}

#[test]
fn non_json_body_is_broadcast_as_anomaly_wrapper() {
    let mut state = AppState::new();
    let out = handle_webhook(
        &mut state,
        b"203.0.113.5".to_vec(),
        b"POST".to_vec(),
        b"/hooks/test".to_vec(),
        &Vec::new(),
        &b"not-json".to_vec(),
    );
    assert_eq!(out.status, 200);
    let text = String::from_utf8(out.text).unwrap();
    assert!(text.contains("\"payload\":{\"anomaly_payload\":\"not-json\"}"));
}

#[test]
fn ingestion_with_a_fixed_timestamp_is_exact() {
    let mut state = AppState::new();
    let out = process_request(
        &mut state,
        b"2024-01-01T00:00:00+00:00".to_vec(),
        b"203.0.113.5".to_vec(),
        b"POST".to_vec(),
        b"/hooks/test".to_vec(),
        &json_headers(),
        &b"{\"a\":1}".to_vec(),
    );
    let expected = "{\"timestamp\":\"2024-01-01T00:00:00+00:00\",\"client_ip\":\"203.0.113.5\",\"method\":\"POST\",\"path\":\"/hooks/test\",\"headers\":{\"content-type\":\"application/json\"},\"payload\":{\"a\":1},\"original_port\":8080}";
    assert_eq!(String::from_utf8(out.text).unwrap(), expected);
}

#[test]
fn repeated_request_headers_collapse_to_one_member() {
    let mut state = AppState::new();
    let headers = vec![
        RawHeader { name: b"x-k".to_vec(), value: b"1".to_vec() },
        RawHeader { name: b"x-k".to_vec(), value: b"2".to_vec() },
    ];
    let out = process_request(
        &mut state,
        b"2024-01-01T00:00:00+00:00".to_vec(),
        b"203.0.113.5".to_vec(),
        b"POST".to_vec(),
        b"/hooks/test".to_vec(),
        &headers,
        &b"{}".to_vec(),
    );
    let text = String::from_utf8(out.text).unwrap();
    assert!(text.contains("\"headers\":{\"x-k\":\"2\"}"));
}

#[test]
fn response_is_success_even_with_no_viewers_and_no_flush() {
    let mut state = AppState::new();
    let out = handle_webhook(
        &mut state,
        b"192.0.2.1".to_vec(),
        b"GET".to_vec(),
        b"/".to_vec(),
        &Vec::new(),
        &Vec::new(),
    );
    assert_eq!(out.status, 200);
    assert!(matches!(out.delivered, BroadcastOutcome::NoReceivers));
    assert!(out.flushed.is_none());
}

#[test]
fn hundredth_request_detaches_a_full_batch() {
    let mut state = AppState::new();
    let mut flushed = None;
    for i in 0..100 {
        let out = handle_webhook(
            &mut state,
            b"192.0.2.1".to_vec(),
            b"POST".to_vec(),
            format!("/n/{}", i).into_bytes(),
            &Vec::new(),
            &b"{}".to_vec(),
        );
        assert_eq!(out.status, 200);
        if out.flushed.is_some() {
            assert_eq!(i, 99);
            flushed = out.flushed;
        }
    }
    let batch = flushed.expect("the hundredth request fills the default buffer");
    assert_eq!(batch.len(), 100);
    assert_eq!(batch[0].path, b"/n/0".to_vec());
    assert_eq!(batch[99].path, b"/n/99".to_vec());
    assert_eq!(state.storage.shutdown().len(), 0);
}
