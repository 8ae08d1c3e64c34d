//! The accept loop.

use wire_whisper::accept::{AcceptEvent, AcceptLoop, AcceptStep};

#[test]
fn connections_are_served_until_shutdown() {
    let mut server = AcceptLoop::new();
    assert_eq!(server.on_event(AcceptEvent::Accepted), AcceptStep::Serve);
    assert_eq!(server.on_event(AcceptEvent::Accepted), AcceptStep::Serve);
    assert_eq!(server.active(), 2);
    assert_eq!(server.on_event(AcceptEvent::SessionEnded), AcceptStep::Listen);
    assert_eq!(server.on_event(AcceptEvent::Shutdown), AcceptStep::Drain);
    assert_eq!(server.on_event(AcceptEvent::Accepted), AcceptStep::Drain);
    assert_eq!(server.active(), 1);
    assert_eq!(server.on_event(AcceptEvent::SessionEnded), AcceptStep::Return);
    assert!(!server.failed());
}

#[test]
fn an_empty_server_returns_at_once() {
    let mut server = AcceptLoop::new();
    assert_eq!(server.on_event(AcceptEvent::Shutdown), AcceptStep::Return);
    assert!(!server.failed());
}

#[test]
fn sessions_are_drained_after_a_failure() {
    let mut server = AcceptLoop::new();
    assert_eq!(server.on_event(AcceptEvent::Accepted), AcceptStep::Serve);
    assert_eq!(server.on_event(AcceptEvent::AcceptFailed), AcceptStep::Drain);
    assert!(server.failed());
    assert_eq!(server.on_event(AcceptEvent::SessionEnded), AcceptStep::Return);
}

#[test]
fn a_failure_after_the_shutdown_does_not_count() {
    let mut server = AcceptLoop::new();
    assert_eq!(server.on_event(AcceptEvent::Accepted), AcceptStep::Serve);
    assert_eq!(server.on_event(AcceptEvent::Shutdown), AcceptStep::Drain);
    assert_eq!(server.on_event(AcceptEvent::AcceptFailed), AcceptStep::Drain);
    assert!(!server.failed());
}
