//! The hub: registration, routing and mailboxes.

use std::sync::Arc;

use bytes::Bytes;

use wire_whisper::{channel, Hub, SESSION_QUEUE_DEPTH};

#[test]
fn claim_and_release() {
    let mut hub = Hub::new();
    let u: Arc<str> = Arc::from("alice");
    let (h, _rx) = hub.try_register(u.clone()).expect("claim should succeed");
    assert_eq!(hub.occupancy(), 1);
    // Collision while held.
    assert!(hub.try_register(u.clone()).is_none());
    hub.release(h);
    assert_eq!(hub.occupancy(), 0);
    // Re-claim after release.
    let (_h2, _rx2) = hub.try_register(u).expect("re-claim should succeed");
    assert_eq!(hub.occupancy(), 1);
}

#[test]
fn distinct_usernames_coexist() {
    let mut hub = Hub::new();
    let (_a, _ra) = hub.try_register(Arc::from("alice")).unwrap();
    let (_b, _rb) = hub.try_register(Arc::from("bob")).unwrap();
    let (_c, _rc) = hub.try_register(Arc::from("carol")).unwrap();
    assert_eq!(hub.occupancy(), 3);
}

#[test]
fn broadcast_excludes_origin_and_reaches_others() {
    let mut hub = Hub::new();
    let alice: Arc<str> = Arc::from("alice");
    let bob: Arc<str> = Arc::from("bob");
    let (_alice_claim, mut alice_rx) = hub.try_register(alice.clone()).unwrap();
    let (_bob_claim, mut bob_rx) = hub.try_register(bob.clone()).unwrap();

    let payload = Bytes::from_static(b"hello");
    hub.broadcast(&alice, payload.clone());

    let recv_bob = bob_rx.try_recv().expect("bob should have a frame");
    assert_eq!(&recv_bob[..], b"hello");
    assert!(
        alice_rx.try_recv().is_err(),
        "alice should not echo to self"
    );
}

#[test]
fn slow_client_drop_does_not_affect_others() {
    let mut hub = Hub::new();
    let publisher: Arc<str> = Arc::from("pub");
    let slow: Arc<str> = Arc::from("slow");
    let fast: Arc<str> = Arc::from("fast");
    let (_pub_claim, _pub_rx) = hub.try_register(publisher.clone()).unwrap();
    // `slow` registers but never drains.
    let (_slow_claim, _slow_rx) = hub.try_register(slow).unwrap();
    // `fast` drains as we publish.
    let (_fast_claim, mut fast_rx) = hub.try_register(fast).unwrap();

    for _ in 0..(SESSION_QUEUE_DEPTH + 8) {
        hub.broadcast(&publisher, Bytes::from_static(b"x"));
        let _ = fast_rx.try_recv();
    }
    assert!(fast_rx.try_recv().is_err());
}

#[test]
fn a_full_mailbox_keeps_what_came_first() {
    let mut hub = Hub::new();
    let alice: Arc<str> = Arc::from("alice");
    let (_a, _ra) = hub.try_register(alice.clone()).unwrap();
    let (b, mut rb) = hub.try_register(Arc::from("bob")).unwrap();
    for i in 0..SESSION_QUEUE_DEPTH + 3 {
        hub.broadcast(&alice, Bytes::from(i.to_string()));
    }
    for i in 0..SESSION_QUEUE_DEPTH {
        assert_eq!(rb.try_recv().unwrap(), Bytes::from(i.to_string()));
    }
    assert!(rb.try_recv().is_err());
    // There is room again.
    hub.broadcast(&alice, Bytes::from_static(b"late"));
    assert_eq!(&rb.try_recv().unwrap()[..], b"late");
    // However many frames went through before, a drained mailbox takes all.
    for i in 0..SESSION_QUEUE_DEPTH {
        hub.broadcast(&alice, Bytes::from(i.to_string()));
    }
    for i in 0..SESSION_QUEUE_DEPTH {
        assert_eq!(rb.try_recv().unwrap(), Bytes::from(i.to_string()));
    }
    assert_eq!(&**b.username(), "bob");
}

#[test]
fn a_session_that_is_gone_is_skipped() {
    let mut hub = Hub::default();
    let (_a, ra) = hub.try_register(Arc::from("alice")).unwrap();
    let (_b, mut rb) = hub.try_register(Arc::from("bob")).unwrap();
    drop(ra);
    let carol: Arc<str> = Arc::from("carol");
    hub.broadcast(&carol, Bytes::from_static(b"hi"));
    assert_eq!(&rb.try_recv().unwrap()[..], b"hi");
    // Its username is held until it is given back.
    assert_eq!(hub.occupancy(), 2);
    assert!(hub.try_register(Arc::from("alice")).is_none());
}

#[test]
fn a_released_session_hears_nothing_more() {
    let mut hub = Hub::new();
    let (a, mut ra) = hub.try_register(Arc::from("alice")).unwrap();
    let bob: Arc<str> = Arc::from("bob");
    hub.broadcast(&bob, Bytes::from_static(b"one"));
    hub.release(a);
    hub.broadcast(&bob, Bytes::from_static(b"two"));
    assert_eq!(&ra.try_recv().unwrap()[..], b"one");
    assert!(ra.try_recv().is_err());
}

#[test]
fn channels_are_bounded() {
    let (tx, mut rx) = channel(2);
    assert!(tx.try_send(Bytes::from_static(b"1")).is_ok());
    assert!(tx.try_send(Bytes::from_static(b"2")).is_ok());
    assert!(tx.try_send(Bytes::from_static(b"3")).is_err());
    assert_eq!(&rx.try_recv().unwrap()[..], b"1");
    assert!(tx.try_send(Bytes::from_static(b"4")).is_ok());
    assert_eq!(&rx.try_recv().unwrap()[..], b"2");
    assert_eq!(&rx.try_recv().unwrap()[..], b"4");
}

#[test]
fn occupancy_counts_the_claims_that_are_held() {
    let mut hub = Hub::new();
    assert_eq!(hub.occupancy(), 0);
    let alice: Arc<str> = Arc::from("alice");
    let (a, _ra) = hub.try_register(alice.clone()).unwrap();
    let (b, _rb) = hub.try_register(Arc::from("bob")).unwrap();
    assert_eq!(hub.occupancy(), 2);
    assert!(hub.try_register(Arc::from("bob")).is_none());
    hub.broadcast(&alice, Bytes::from_static(b"x"));
    assert_eq!(hub.occupancy(), 2);
    hub.release(a);
    assert_eq!(hub.occupancy(), 1);
    hub.release(b);
    assert_eq!(hub.occupancy(), 0);
}
