use tokio::sync::broadcast::error::TryRecvError;
use webhook_capture::websocket::{BroadcastOutcome, WebSocketHandler};

#[test]
fn broadcast_reaches_every_current_subscriber() {
    let hub = WebSocketHandler::new();
    let mut r1 = hub.subscribe();
    let mut r2 = hub.subscribe();
    let mut r3 = hub.subscribe();
    let outcome = hub.broadcast(b"hello".to_vec());
    match outcome {
        BroadcastOutcome::Delivered(n) => assert_eq!(n, 3),
        _ => panic!("three subscribers must be reached"),
    }
    assert_eq!(r1.try_recv().unwrap(), b"hello".to_vec());
    assert_eq!(r2.try_recv().unwrap(), b"hello".to_vec());
    assert_eq!(r3.try_recv().unwrap(), b"hello".to_vec());
}

#[test]
fn late_subscriber_receives_nothing_from_before() {
    let hub = WebSocketHandler::new();
    let mut early = hub.subscribe();
    hub.broadcast(b"first".to_vec());
    let mut late = hub.subscribe();
    assert_eq!(early.try_recv().unwrap(), b"first".to_vec());
    assert!(matches!(late.try_recv(), Err(TryRecvError::Empty)));
}

#[test]
fn broadcast_without_subscribers_is_dropped_without_error() {
    let hub = WebSocketHandler::new();
    let outcome = hub.broadcast(b"nobody".to_vec());
    assert!(matches!(outcome, BroadcastOutcome::NoReceivers));
}

#[test]
fn lagging_subscriber_misses_old_messages() {
    let hub = WebSocketHandler::new();
    let mut rx = hub.subscribe();
    // The channel holds 100 pending messages per subscriber: a viewer
    // that never drains learns it lagged, and the oldest messages are
    // gone for it. Delivery is best-effort, not at-least-once.
    for i in 0..150 {
        hub.broadcast(format!("m{}", i).into_bytes());
    }
    assert!(matches!(rx.try_recv(), Err(TryRecvError::Lagged(_))));
}

#[test]
fn registry_counts_each_viewer_once() {
    let mut hub = WebSocketHandler::new();
    hub.register_client(7);
    hub.register_client(9);
    hub.register_client(7);
    assert_eq!(hub.client_count(), 2);
    assert!(hub.is_registered(7));
    assert!(hub.is_registered(9));
    assert!(!hub.is_registered(11));
}

#[test]
fn unregistering_one_viewer_leaves_the_others() {
    let mut hub = WebSocketHandler::new();
    hub.register_client(1);
    hub.register_client(2);
    hub.register_client(3);
    hub.unregister_client(2);
    assert_eq!(hub.client_count(), 2);
    assert!(hub.is_registered(1));
    assert!(!hub.is_registered(2));
    assert!(hub.is_registered(3));
    hub.unregister_client(2);
    assert_eq!(hub.client_count(), 2);
}

#[test]
fn connect_viewer_registers_and_subscribes() {
    let mut hub = WebSocketHandler::new();
    let (id_a, mut rx_a) = hub.connect_viewer();
    let (id_b, _rx_b) = hub.connect_viewer();
    assert_ne!(id_a, id_b);
    assert_eq!(hub.client_count(), 2);
    assert!(hub.is_registered(id_a));
    let outcome = hub.broadcast(b"frame".to_vec());
    assert!(matches!(outcome, BroadcastOutcome::Delivered(2)));
    assert_eq!(rx_a.try_recv().unwrap(), b"frame".to_vec());
    hub.unregister_client(id_a);
    assert!(!hub.is_registered(id_a));
    assert!(hub.is_registered(id_b));
}
