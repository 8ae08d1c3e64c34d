//! Sessions: the handshake, the life in the room and the departure.

use bytes::{Bytes, BytesMut};

use wire_whisper::hub::ClaimHandle;
use wire_whisper::session::{handshake, Action, Ending, Event, FirstEvent, Handshake, Refusal};
use wire_whisper::{
    encode_frame, ClientFrame, ClientSideCodec, Hub, Mailbox, ServerFrame, Session,
    ValidationError, MAX_BODY_BYTES, PROTOCOL_VERSION,
};

const SECOND: u128 = 1_000_000_000;
const IDLE: u128 = 60 * SECOND;

/// A client in the room, seen from the server.
struct Guest {
    claim: ClaimHandle,
    mailbox: Mailbox<Bytes>,
    session: Session,
}

fn hello(name: &str) -> FirstEvent {
    FirstEvent::Frame(ClientFrame::Hello {
        version: PROTOCOL_VERSION,
        username: name.into(),
    })
}

fn rejected(hub: &mut Hub, event: FirstEvent) -> (Refusal, String) {
    match handshake(hub, event) {
        Handshake::Refused { why, reply: ServerFrame::Rejected { reason }, .. } => (why, reason),
        _ => panic!("not rejected"),
    }
}

fn welcome_in(hub: &mut Hub, name: &str) -> (Guest, ServerFrame) {
    match handshake(hub, hello(name)) {
        Handshake::Admitted { claim, mailbox, welcome } => {
            let session = Session::join(hub, &claim, IDLE, 0);
            (Guest { claim, mailbox, session }, welcome)
        }
        _ => panic!("{name} not admitted"),
    }
}

fn enter(hub: &mut Hub, name: &str) -> Guest {
    welcome_in(hub, name).0
}

impl Guest {
    /// What the client reads next, if anything.
    fn read(&mut self) -> Option<ServerFrame> {
        let bytes = self.mailbox.try_recv().ok()?;
        let mut buf = BytesMut::from(&bytes[..]);
        let frame = ClientSideCodec::new().decode(&mut buf).unwrap();
        assert!(buf.is_empty());
        frame
    }

    /// The client sends a message, and the rate limiter has its say.
    fn say(&mut self, hub: &mut Hub, body: &str, granted: bool) -> Action {
        let frame = ClientFrame::Send { body: body.into() };
        match self.session.step(hub, Event::Frame(frame), 0) {
            Action::TakeToken => self.session.step(hub, Event::Token(granted), 0),
            other => other,
        }
    }
}

fn error_of(action: Action) -> String {
    match action {
        Action::Reply(ServerFrame::Error { reason }) => reason,
        _ => panic!("no error"),
    }
}

fn ending_of(action: Action) -> (Ending, Option<String>) {
    match action {
        Action::Finish { why, farewell: None } => (why, None),
        Action::Finish { why, farewell: Some(ServerFrame::Error { reason }) } => {
            (why, Some(reason))
        }
        _ => panic!("no ending"),
    }
}

fn message(from: &str, body: &str) -> Option<ServerFrame> {
    Some(ServerFrame::Message { from: from.into(), body: body.into() })
}

#[test]
fn broadcast_excludes_sender() {
    let mut hub = Hub::new();
    let mut alice = enter(&mut hub, "alice");
    let mut bob = enter(&mut hub, "bob");

    // bob joined after alice; alice sees bob's Joined.
    assert_eq!(
        alice.read(),
        Some(ServerFrame::Joined { username: "bob".into() })
    );

    assert!(matches!(alice.say(&mut hub, "hello world", true), Action::Wait));
    assert_eq!(bob.read(), message("alice", "hello world"));
    assert_eq!(alice.read(), None, "alice should not see her own message");
}

#[test]
fn duplicate_username_is_rejected() {
    let mut hub = Hub::new();
    let _alice = enter(&mut hub, "alice");
    assert_eq!(
        rejected(&mut hub, hello("alice")),
        (Refusal::NameTaken, "username 'alice' is already taken".to_string())
    );
    assert_eq!(hub.occupancy(), 1);
}

#[test]
fn leave_releases_username() {
    let mut hub = Hub::new();
    let mut alice = enter(&mut hub, "alice");
    let end = alice.session.step(&mut hub, Event::Frame(ClientFrame::Leave), 0);
    assert_eq!(ending_of(end), (Ending::Left, None));
    alice.session.depart(&mut hub, alice.claim);
    let _alice_again = enter(&mut hub, "alice");
    assert_eq!(hub.occupancy(), 1);
}

#[test]
fn socket_close_releases_username() {
    let mut hub = Hub::new();
    let mut alice = enter(&mut hub, "alice");
    let end = alice.session.step(&mut hub, Event::Disconnected, 0);
    assert_eq!(ending_of(end), (Ending::Disconnected, None));
    alice.session.depart(&mut hub, alice.claim);
    let _alice_again = enter(&mut hub, "alice");
}

#[test]
fn invalid_username_is_rejected() {
    let mut hub = Hub::new();
    assert_eq!(
        rejected(&mut hub, hello("no spaces allowed")),
        (
            Refusal::InvalidUsername { error: ValidationError::UsernameInvalidByte },
            "username contains an invalid byte (allowed: ASCII alnum, '_', '-')".to_string()
        )
    );
    assert_eq!(
        rejected(&mut hub, hello("")).1,
        "username is empty (must be 1..=32 bytes)"
    );
    assert_eq!(
        rejected(&mut hub, hello(&"x".repeat(40))).1,
        "username is 40 bytes; max is 32"
    );
    assert_eq!(hub.occupancy(), 0);
}

#[test]
fn three_way_broadcast() {
    let mut hub = Hub::new();
    let mut alice = enter(&mut hub, "alice");
    let mut bob = enter(&mut hub, "bob");
    let mut carol = enter(&mut hub, "carol");

    // Drain join notifications.
    assert!(alice.read().is_some());
    assert!(alice.read().is_some());
    assert!(bob.read().is_some());

    bob.say(&mut hub, "hello everyone", true);
    assert_eq!(alice.read(), message("bob", "hello everyone"));
    assert_eq!(carol.read(), message("bob", "hello everyone"));
    assert_eq!(bob.read(), None);
}

#[test]
fn empty_body_is_rejected() {
    let mut hub = Hub::new();
    let mut alice = enter(&mut hub, "alice");
    let mut bob = enter(&mut hub, "bob");
    assert_eq!(error_of(alice.say(&mut hub, "", true)), "body is empty");
    assert_eq!(
        error_of(alice.say(&mut hub, &"x".repeat(MAX_BODY_BYTES + 1), true)),
        "body is 4097 bytes; max is 4096"
    );
    assert_eq!(bob.read(), None);
    // The session goes on.
    alice.say(&mut hub, "still here", true);
    assert_eq!(bob.read(), message("alice", "still here"));
}

#[test]
fn protocol_version_mismatch_is_rejected() {
    let mut hub = Hub::new();
    let event = FirstEvent::Frame(ClientFrame::Hello {
        version: PROTOCOL_VERSION.wrapping_add(99),
        username: "alice".into(),
    });
    assert_eq!(
        rejected(&mut hub, event),
        (
            Refusal::VersionMismatch { client: 100 },
            "protocol version mismatch: server=1, client=100".to_string()
        )
    );
    assert_eq!(hub.occupancy(), 0);
}

#[test]
fn the_version_is_checked_before_the_name() {
    let mut hub = Hub::new();
    let event = FirstEvent::Frame(ClientFrame::Hello { version: 0, username: "".into() });
    assert_eq!(
        rejected(&mut hub, event).0,
        Refusal::VersionMismatch { client: 0 }
    );
}

#[test]
fn second_hello_disconnects_peer() {
    let mut hub = Hub::new();
    let mut alice = enter(&mut hub, "alice");
    let again = ClientFrame::Hello {
        version: PROTOCOL_VERSION,
        username: "alice2".into(),
    };
    let end = alice.session.step(&mut hub, Event::Frame(again), 0);
    assert_eq!(
        ending_of(end),
        (
            Ending::SecondHello,
            Some("protocol violation: Hello after handshake".to_string())
        )
    );
}

#[test]
fn graceful_shutdown_notifies_connected_clients() {
    let mut hub = Hub::new();
    let mut alice = enter(&mut hub, "alice");
    let mut bob = enter(&mut hub, "bob");
    let end = alice.session.step(&mut hub, Event::Shutdown, 0);
    assert_eq!(
        ending_of(end),
        (Ending::Shutdown, Some("server shutting down".to_string()))
    );
    alice.session.depart(&mut hub, alice.claim);
    assert_eq!(
        bob.read(),
        Some(ServerFrame::Departed { username: "alice".into() })
    );
    assert_eq!(hub.occupancy(), 1);
}

#[test]
fn server_sends_ping_after_idle_interval() {
    let mut hub = Hub::new();
    let mut alice = enter(&mut hub, "alice");
    assert!(matches!(
        alice.session.step(&mut hub, Event::Tick, 30 * SECOND),
        Action::Reply(ServerFrame::Ping)
    ));
    // The limit itself is not over the limit.
    assert!(matches!(
        alice.session.step(&mut hub, Event::Tick, IDLE),
        Action::Reply(ServerFrame::Ping)
    ));
}

#[test]
fn idle_timeout_disconnects_silent_client() {
    let mut hub = Hub::new();
    let mut alice = enter(&mut hub, "alice");
    let end = alice.session.step(&mut hub, Event::Tick, IDLE + 1);
    assert_eq!(
        ending_of(end),
        (Ending::Idle, Some("idle timeout".to_string()))
    );
}

#[test]
fn frames_of_the_client_keep_the_session_alive() {
    let mut hub = Hub::new();
    let mut alice = enter(&mut hub, "alice");
    let pong = alice.session.step(&mut hub, Event::Frame(ClientFrame::Pong), 50 * SECOND);
    assert!(matches!(pong, Action::Wait));
    // Mail from the room does not.
    let mail = Event::Mail(Bytes::from_static(b"x"));
    assert!(matches!(
        alice.session.step(&mut hub, mail, 100 * SECOND),
        Action::Forward(_)
    ));
    assert!(matches!(
        alice.session.step(&mut hub, Event::Tick, 110 * SECOND),
        Action::Reply(ServerFrame::Ping)
    ));
    assert!(matches!(
        alice.session.step(&mut hub, Event::Tick, 110 * SECOND + 1),
        Action::Finish { why: Ending::Idle, .. }
    ));
}

#[test]
fn rate_limit_kicks_in_past_burst() {
    let mut hub = Hub::new();
    let mut alice = enter(&mut hub, "alice");
    let mut bob = enter(&mut hub, "bob");
    assert!(alice.read().is_some());

    for i in 0..3 {
        assert!(matches!(
            alice.say(&mut hub, &format!("ok {i}"), true),
            Action::Wait
        ));
        assert_eq!(bob.read(), message("alice", &format!("ok {i}")));
    }

    let refused = alice.say(&mut hub, "too fast", false);
    assert_eq!(error_of(refused), "rate limit exceeded; slow down");
    assert_eq!(bob.read(), None);
    // The refused message is forgotten.
    alice.say(&mut hub, "slower", true);
    assert_eq!(bob.read(), message("alice", "slower"));
}

#[test]
fn first_frame_must_be_hello() {
    let mut hub = Hub::new();
    for frame in [
        ClientFrame::Pong,
        ClientFrame::Leave,
        ClientFrame::Send { body: "hi".into() },
    ] {
        match handshake(&mut hub, FirstEvent::Frame(frame.clone())) {
            Handshake::Refused { why, reply, first } => {
                assert_eq!(why, Refusal::NotHello);
                assert_eq!(
                    reply,
                    ServerFrame::Rejected { reason: "first frame must be Hello".into() }
                );
                assert_eq!(first, frame);
            }
            _ => panic!("not refused"),
        }
    }
}

#[test]
fn nobody_is_answered_without_a_frame() {
    let mut hub = Hub::new();
    for event in [
        FirstEvent::Shutdown,
        FirstEvent::TimedOut,
        FirstEvent::Disconnected,
        FirstEvent::Malformed,
    ] {
        assert!(matches!(handshake(&mut hub, event), Handshake::Abandoned));
    }
    assert_eq!(hub.occupancy(), 0);
}

#[test]
fn welcome_tells_name_and_occupancy() {
    let mut hub = Hub::new();
    let (_alice, first) = welcome_in(&mut hub, "alice");
    let (_bob, second) = welcome_in(&mut hub, "bob");
    assert_eq!(
        first,
        ServerFrame::Welcome { motd: "welcome, alice.".into(), occupancy: 1 }
    );
    assert_eq!(
        second,
        ServerFrame::Welcome { motd: "welcome, bob.".into(), occupancy: 2 }
    );
}

#[test]
fn other_ends_of_a_session() {
    let mut hub = Hub::new();
    let mut alice = enter(&mut hub, "alice");
    let end = alice.session.step(&mut hub, Event::Malformed, 0);
    assert_eq!(ending_of(end), (Ending::Malformed, None));
    let end = alice.session.step(&mut hub, Event::MailboxClosed, 0);
    assert_eq!(ending_of(end), (Ending::MailboxClosed, None));
}

#[test]
fn mail_is_forwarded_as_it_is() {
    let mut hub = Hub::new();
    let mut alice = enter(&mut hub, "alice");
    let bytes = encode_frame(&ServerFrame::Ping).unwrap();
    match alice.session.step(&mut hub, Event::Mail(bytes.clone()), 0) {
        Action::Forward(out) => assert_eq!(out, bytes),
        _ => panic!("not forwarded"),
    }
}

#[test]
fn a_session_leaves_no_trace() {
    let mut hub = Hub::new();
    let mut alice = enter(&mut hub, "alice");
    let mut bob = enter(&mut hub, "bob");
    bob.say(&mut hub, "hi", true);
    bob.session.depart(&mut hub, bob.claim);
    let seen = [alice.read(), alice.read(), alice.read(), alice.read()];
    assert_eq!(
        seen,
        [
            Some(ServerFrame::Joined { username: "bob".into() }),
            message("bob", "hi"),
            Some(ServerFrame::Departed { username: "bob".into() }),
            None,
        ]
    );
    assert_eq!(hub.occupancy(), 1);
    assert!(bob.mailbox.try_recv().is_err());
}

#[test]
fn others_may_come_and_go_meanwhile() {
    let mut hub = Hub::new();
    let alice = enter(&mut hub, "alice");
    let bob = enter(&mut hub, "bob");
    let _carol = enter(&mut hub, "carol");
    alice.session.depart(&mut hub, alice.claim);
    assert_eq!(rejected(&mut hub, hello("bob")).0, Refusal::NameTaken);
    bob.session.depart(&mut hub, bob.claim);
    assert_eq!(hub.occupancy(), 1);
    let _bob_again = enter(&mut hub, "bob");
    assert_eq!(rejected(&mut hub, hello("carol")).0, Refusal::NameTaken);
}
