use webhook_capture::record::{build_record, record_text, WebhookRecord};
use webhook_capture::storage::{flush_content, ArrowStorage};

fn make_record(i: usize) -> WebhookRecord {
    build_record(
        b"2024-01-01T00:00:00+00:00".to_vec(),
        b"198.51.100.7".to_vec(),
        b"POST".to_vec(),
        format!("/r{}", i).into_bytes(),
        &Vec::new(),
        &b"{}".to_vec(),
        8080,
    )
}

fn paths_of(batch: &[WebhookRecord]) -> Vec<Vec<u8>> {
    batch.iter().map(|r| r.path.clone()).collect()
}

#[test]
fn batch_integrity_under_threshold_three() {
    let mut storage = ArrowStorage::with_threshold(3);
    let mut flushed_paths: Vec<Vec<u8>> = Vec::new();
    let mut batches = 0;
    for i in 0..7 {
        match storage.store_webhook(make_record(i)) {
            Some(batch) => {
                assert_eq!(batch.len(), 3);
                batches += 1;
                flushed_paths.extend(paths_of(&batch));
            }
            None => {}
        }
    }
    assert_eq!(batches, 2);
    let remaining = storage.shutdown();
    flushed_paths.extend(paths_of(&remaining));
    // Every appended record shows up exactly once, in append order.
    let expected: Vec<Vec<u8>> =
        (0..7).map(|i| format!("/r{}", i).into_bytes()).collect();
    assert_eq!(flushed_paths, expected);
}

#[test]
fn threshold_of_one_flushes_every_append() {
    let mut storage = ArrowStorage::with_threshold(1);
    for i in 0..3 {
        let batch = storage.store_webhook(make_record(i)).expect("every append flushes");
        assert_eq!(paths_of(&batch), vec![format!("/r{}", i).into_bytes()]);
    }
    assert!(storage.shutdown().is_empty());
}

#[test]
fn default_threshold_is_one_hundred() {
    let mut storage = ArrowStorage::new();
    for i in 0..99 {
        assert!(storage.store_webhook(make_record(i)).is_none());
    }
    let batch = storage.store_webhook(make_record(99)).expect("hundredth append flushes");
    assert_eq!(batch.len(), 100);
    assert!(storage.shutdown().is_empty());
}

#[test]
fn lost_batch_is_never_duplicated() {
    let mut storage = ArrowStorage::with_threshold(2);
    assert!(storage.store_webhook(make_record(0)).is_none());
    let batch = storage.store_webhook(make_record(1)).expect("threshold reached");
    assert_eq!(paths_of(&batch), vec![b"/r0".to_vec(), b"/r1".to_vec()]);
    // The persist step fails: the detached batch is dropped, not requeued.
    drop(batch);
    // Nothing of the lost batch ever surfaces again.
    assert!(storage.store_webhook(make_record(2)).is_none());
    let second = storage.store_webhook(make_record(3)).expect("threshold reached");
    assert_eq!(paths_of(&second), vec![b"/r2".to_vec(), b"/r3".to_vec()]);
    assert!(storage.shutdown().is_empty());
}

#[test]
fn shutdown_detaches_the_partial_batch_once() {
    let mut storage = ArrowStorage::with_threshold(10);
    storage.store_webhook(make_record(0));
    storage.store_webhook(make_record(1));
    let remaining = storage.shutdown();
    assert_eq!(remaining.len(), 2);
    assert!(storage.shutdown().is_empty());
}

#[test]
fn flush_content_is_the_records_in_an_array() {
    let a = make_record(0);
    let b = make_record(1);
    let mut expected = b"[".to_vec();
    expected.extend_from_slice(&record_text(&a));
    expected.push(b',');
    expected.extend_from_slice(&record_text(&b));
    expected.push(b']');
    assert_eq!(flush_content(&vec![a, b]), expected);
    assert_eq!(flush_content(&Vec::new()), b"[]".to_vec());
}
