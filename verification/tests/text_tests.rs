use webhook_capture::storage::flush_filename;
use webhook_capture::text::{dec_i64, dec_u64, escaped, quoted};
use webhook_capture::websocket::client_label;

#[test]
fn decimal_of_zero() {
    assert_eq!(dec_u64(0), b"0".to_vec());
}

#[test]
fn decimal_of_many_digits() {
    assert_eq!(dec_u64(1234567890), b"1234567890".to_vec());
    assert_eq!(dec_u64(u64::MAX), b"18446744073709551615".to_vec());
}

#[test]
fn signed_decimal() {
    assert_eq!(dec_i64(0), b"0".to_vec());
    assert_eq!(dec_i64(-5), b"-5".to_vec());
    assert_eq!(dec_i64(i64::MIN), b"-9223372036854775808".to_vec());
}

#[test]
fn escaping_handles_quotes_backslashes_and_controls() {
    assert_eq!(escaped(&b"plain".to_vec()), b"plain".to_vec());
    assert_eq!(escaped(&b"a\"b".to_vec()), b"a\\\"b".to_vec());
    assert_eq!(escaped(&b"a\\b".to_vec()), b"a\\\\b".to_vec());
    assert_eq!(escaped(&b"a\nb\rc\td".to_vec()), b"a\\nb\\rc\\td".to_vec());
    assert_eq!(escaped(&vec![0x01]), b"\\u0001".to_vec());
    assert_eq!(escaped(&vec![0x1f]), b"\\u001f".to_vec());
}

#[test]
fn quoting_wraps_the_escaped_body() {
    assert_eq!(quoted(&b"a\"b".to_vec()), b"\"a\\\"b\"".to_vec());
    assert_eq!(quoted(&Vec::new()), b"\"\"".to_vec());
}

#[test]
fn client_labels_are_zero_padded_hex() {
    assert_eq!(client_label(0xff), b"client_00000000000000ff".to_vec());
    assert_eq!(client_label(0), b"client_0000000000000000".to_vec());
    assert_eq!(
        client_label(0x0123456789abcdef),
        b"client_0123456789abcdef".to_vec()
    );
}

#[test]
fn flush_filenames_follow_the_formula() {
    assert_eq!(flush_filename(1700000000), b"webhooks_1700000000.json".to_vec());
    assert_eq!(flush_filename(0), b"webhooks_0.json".to_vec());
    assert_eq!(flush_filename(-1), b"webhooks_-1.json".to_vec());
}
