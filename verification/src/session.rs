//! What a session decides: whom to admit, and how to answer each event.
//!
//! A session goes through three stages. [`handshake`] answers the client's
//! first frame. [`Session::join`] announces the session to the room, and
//! [`Session::step`] answers one event after the other until it says
//! [`Action::Finish`]. [`Session::depart`] announces the departure and gives
//! the username back.

use std::sync::Arc;

use bytes::Bytes;

use vstd::prelude::*;
use vstd::utf8;

use crate::buffer;
use crate::codec;
use crate::codec::ProtocolError;
use crate::frame;
use crate::frame::{ClientFrame, ClientFrameView, Payload, ServerFrame, ServerFrameView};
use crate::hub;
use crate::hub::{Call, ClaimHandle, Hub};
use crate::limits::{PROTOCOL_VERSION, SESSION_QUEUE_DEPTH};
use crate::mailbox;
use crate::mailbox::{Mailbox, Outbox};
use crate::text;
use crate::validated;
use crate::validated::{UserName, ValidationError};

verus! {

// ---------------------------------------------------------------------------
// Handshake
// ---------------------------------------------------------------------------

/// Why the first frame of a client was refused.
#[derive(Debug, Clone, Copy, PartialEq, Eq, Structural)]
pub enum Refusal {
    /// It is not a `Hello`.
    NotHello,
    /// It speaks another version of the protocol.
    VersionMismatch {
        /// The client's version.
        client: u8,
    },
    /// Its username breaks the rules.
    InvalidUsername {
        /// The rule.
        error: ValidationError,
    },
    /// Somebody else holds the username.
    NameTaken,
}

/// What can happen first on a new connection.
pub enum FirstEvent {
    /// The server is shutting down.
    Shutdown,
    /// The client sent nothing in time.
    TimedOut,
    /// The client closed the connection.
    Disconnected,
    /// The client sent bytes that are no frame.
    Malformed,
    /// The client sent a frame.
    Frame(ClientFrame),
}

/// What comes of the first event.
pub enum Handshake {
    /// The client is in: send `welcome` and go on.
    Admitted {
        /// The claim on the username.
        claim: ClaimHandle,
        /// Where frames for the client arrive.
        mailbox: Mailbox<Bytes>,
        /// The answer.
        welcome: ServerFrame,
    },
    /// The client is refused: send `reply` and close the connection.
    Refused {
        /// Why.
        why: Refusal,
        /// The answer.
        reply: ServerFrame,
        /// The frame that was refused.
        first: ClientFrame,
    },
    /// There is nobody to answer: close the connection.
    Abandoned,
}

/// Why `first` is refused in a room where the usernames in `taken` are held,
/// if it is.
pub open spec fn refusal(first: ClientFrameView, taken: Set<Seq<char>>) -> Option<Refusal> {
    match first {
        ClientFrameView::Hello { version, username } => if version != PROTOCOL_VERSION {
            Some(Refusal::VersionMismatch { client: version })
        } else {
            match validated::check_username(username) {
                Err(error) => Some(Refusal::InvalidUsername { error }),
                Ok(_) => if taken.contains(username) {
                    Some(Refusal::NameTaken)
                } else {
                    None
                },
            }
        },
        _ => Some(Refusal::NotHello),
    }
}

/// The username that a first frame asks for.
pub open spec fn asked_name(first: ClientFrameView) -> Seq<char> {
    match first {
        ClientFrameView::Hello { version: _, username } => username,
        _ => Seq::empty(),
    }
}

impl Refusal {
    /// What a client that asked for `name` is told.
    pub open spec fn text(self, name: Seq<char>) -> Seq<char> {
        match self {
            Refusal::NotHello => "first frame must be Hello"@,
            Refusal::VersionMismatch { client } => "protocol version mismatch: server="@
                + text::decimal(PROTOCOL_VERSION as nat) + ", client="@ + text::decimal(
                client as nat,
            ),
            Refusal::InvalidUsername { error } => error.text(),
            Refusal::NameTaken => "username '"@ + name + "' is already taken"@,
        }
    }

    /// What a client that asked for `name` is told.
    pub fn reason(&self, name: &str) -> (r: String)
        ensures
            r@ == self.text(name@),
    {
        match *self {
            Refusal::NotHello => "first frame must be Hello".to_owned(),
            Refusal::VersionMismatch { client } => {
                let mut out = "protocol version mismatch: server=".to_owned();
                text::push_decimal(&mut out, PROTOCOL_VERSION as u64);
                out.append(", client=");
                text::push_decimal(&mut out, client as u64);
                out
            },
            Refusal::InvalidUsername { error } => error.message(),
            Refusal::NameTaken => {
                let mut out = "username '".to_owned();
                out.append(name);
                out.append("' is already taken");
                out
            },
        }
    }
}

/// The banner that welcomes `name`.
pub open spec fn banner(name: Seq<char>) -> Seq<char> {
    "welcome, "@ + name + "."@
}

/// A count as a `u32`, or the largest one where it does not fit.
pub open spec fn clamped(n: nat) -> u32 {
    if n <= u32::MAX {
        n as u32
    } else {
        u32::MAX
    }
}

/// What a handshake in the room `before` gives, and what the room becomes.
pub open spec fn answered(
    before: Map<Seq<char>, Outbox>,
    event: FirstEvent,
    r: Handshake,
    after: Map<Seq<char>, Outbox>,
) -> bool {
    match event {
        FirstEvent::Frame(first) => match refusal(first@, before.dom()) {
            Some(reason) => {
                &&& r matches Handshake::Refused { why, reply, first: refused }
                &&& why == reason
                &&& reply@ == (ServerFrameView::Rejected {
                    reason: reason.text(asked_name(first@)),
                })
                &&& refused@ == first@
                &&& after == before
            },
            None => {
                &&& r matches Handshake::Admitted { claim, mailbox, welcome }
                &&& claim@ == asked_name(first@)
                &&& after == before.insert(
                    asked_name(first@),
                    mailbox::fresh_outbox(mailbox, SESSION_QUEUE_DEPTH as nat),
                )
                &&& welcome@ == (ServerFrameView::Welcome {
                    motd: banner(asked_name(first@)),
                    occupancy: clamped(before.dom().len() + 1),
                })
            },
        },
        _ => r is Abandoned && after == before,
    }
}

/// A short text between two legal names or numbers is short.
proof fn lemma_reason_fits(first: ClientFrameView, taken: Set<Seq<char>>)
    ensures
        refusal(first, taken) matches Some(why) ==> frame::fits::<ServerFrame>(
            ServerFrameView::Rejected { reason: why.text(asked_name(first)) },
        ),
{
    reveal_strlit("first frame must be Hello");
    reveal_strlit("protocol version mismatch: server=");
    reveal_strlit(", client=");
    reveal_strlit("username '");
    reveal_strlit("' is already taken");
    if let Some(why) = refusal(first, taken) {
        let name = asked_name(first);
        let reason = why.text(name);
        match why {
            Refusal::NotHello => {
                text::lemma_bytes_per_char(reason);
            },
            Refusal::VersionMismatch { client } => {
                text::lemma_decimal_len(PROTOCOL_VERSION as nat);
                text::lemma_decimal_len(client as nat);
                text::lemma_bytes_per_char(reason);
            },
            Refusal::InvalidUsername { error } => {
                validated::lemma_error_text_len(error);
                text::lemma_bytes_per_char(reason);
            },
            Refusal::NameTaken => {
                text::lemma_bytes_of_sum("username '"@ + name, "' is already taken"@);
                text::lemma_bytes_of_sum("username '"@, name);
                text::lemma_bytes_per_char("username '"@);
                text::lemma_bytes_per_char("' is already taken"@);
            },
        }
        frame::lemma_short_text_fits(reason);
    }
}

/// The welcome of a legal name fits in a frame.
proof fn lemma_welcome_fits(name: Seq<char>, occupancy: u32)
    requires
        validated::valid_username(name),
    ensures
        frame::fits::<ServerFrame>(ServerFrameView::Welcome { motd: banner(name), occupancy }),
{
    reveal_strlit("welcome, ");
    reveal_strlit(".");
    text::lemma_bytes_of_sum("welcome, "@ + name, "."@);
    text::lemma_bytes_of_sum("welcome, "@, name);
    text::lemma_bytes_per_char("welcome, "@);
    text::lemma_bytes_per_char("."@);
    frame::lemma_short_welcome_fits(banner(name), occupancy);
}

/// Answers the first event on a new connection.
///
/// The client is admitted if its first frame is a `Hello` of this protocol
/// version with a legal username that nobody holds; its username is then
/// registered. Every answer fits in a frame.
pub fn handshake(hub: &mut Hub, event: FirstEvent) -> (r: Handshake)
    requires
        old(hub).wf(),
        old(hub)@.dom().len() < usize::MAX,
    ensures
        final(hub).wf(),
        answered(old(hub)@, event, r, final(hub)@),
        r matches Handshake::Admitted { claim, welcome, .. } ==> {
            &&& validated::valid_username(claim@)
            &&& frame::fits::<ServerFrame>(welcome@)
        },
        r matches Handshake::Refused { reply, .. } ==> frame::fits::<ServerFrame>(reply@),
{
    let first = match event {
        FirstEvent::Frame(first) => first,
        _ => {
            return Handshake::Abandoned;
        },
    };
    proof {
        lemma_reason_fits(first@, hub@.dom());
    }
    let verdict: Result<(ClaimHandle, Mailbox<Bytes>), Refusal> = match &first {
        ClientFrame::Hello { version, username } => if *version != PROTOCOL_VERSION {
            Err(Refusal::VersionMismatch { client: *version })
        } else {
            match UserName::new(username) {
                Err(error) => Err(Refusal::InvalidUsername { error }),
                Ok(name) => match hub.try_register(name.into_arc()) {
                    Some(pair) => Ok(pair),
                    None => Err(Refusal::NameTaken),
                },
            }
        },
        _ => Err(Refusal::NotHello),
    };
    match verdict {
        Ok((claim, mailbox)) => {
            let n: usize = hub.occupancy();
            let occupancy: u32 = if n <= u32::MAX as usize {
                n as u32
            } else {
                u32::MAX
            };
            let mut motd = "welcome, ".to_owned();
            motd.append(claim.username());
            motd.append(".");
            proof {
                lemma_welcome_fits(claim@, occupancy);
            }
            Handshake::Admitted {
                claim,
                mailbox,
                welcome: ServerFrame::Welcome { motd, occupancy },
            }
        },
        Err(why) => {
            let reason = match &first {
                ClientFrame::Hello { version: _, username } => why.reason(username),
                _ => why.reason(""),
            };
            Handshake::Refused { why, reply: ServerFrame::Rejected { reason }, first }
        },
    }
}

// ---------------------------------------------------------------------------
// Serving
// ---------------------------------------------------------------------------

/// What can happen to a session in the room.
///
/// Where several things happen at once, the one that stands first here is
/// handled first.
pub enum Event {
    /// The server is shutting down.
    Shutdown,
    /// The client closed the connection.
    Disconnected,
    /// The client sent bytes that are no frame.
    Malformed,
    /// The client sent a frame.
    Frame(ClientFrame),
    /// The rate limiter was asked for a token, and granted it or not.
    Token(bool),
    /// A frame for the client arrived in the mailbox.
    Mail(Bytes),
    /// The mailbox was closed.
    MailboxClosed,
    /// The heartbeat is due.
    Tick,
}

/// Why a session ends.
#[derive(Debug, Clone, Copy, PartialEq, Eq, Structural)]
pub enum Ending {
    /// The server is shutting down.
    Shutdown,
    /// The client closed the connection.
    Disconnected,
    /// The client sent bytes that are no frame. This is a failure.
    Malformed,
    /// The client said goodbye.
    Left,
    /// The client sent a second `Hello`. This is a failure.
    SecondHello,
    /// The mailbox was closed.
    MailboxClosed,
    /// The client was silent for too long.
    Idle,
}

/// What a session does next.
pub enum Action {
    /// Wait for the next event.
    Wait,
    /// Ask the rate limiter for one token.
    TakeToken,
    /// Send this frame to the client; where that fails, the session ends.
    Reply(ServerFrame),
    /// Send these bytes, a frame that is encoded already, to the client; where
    /// that fails, the session ends.
    Forward(Bytes),
    /// End the session, after an attempt to send the farewell.
    Finish {
        /// Why.
        why: Ending,
        /// What the client is told.
        farewell: Option<ServerFrame>,
    },
}

/// An [`Action`] with its frames as views.
pub enum ActionView {
    Wait,
    TakeToken,
    Reply(ServerFrameView),
    Forward(Seq<u8>),
    Finish { why: Ending, farewell: Option<ServerFrameView> },
}

impl View for Action {
    type V = ActionView;

    open spec fn view(&self) -> ActionView {
        match *self {
            Action::Wait => ActionView::Wait,
            Action::TakeToken => ActionView::TakeToken,
            Action::Reply(frame) => ActionView::Reply(frame@),
            Action::Forward(bytes) => ActionView::Forward(buffer::shared_bytes(bytes)),
            Action::Finish { why, farewell } => ActionView::Finish {
                why,
                farewell: match farewell {
                    Some(frame) => Some(frame@),
                    None => None,
                },
            },
        }
    }
}

/// A session in the room.
///
/// Times are in nanoseconds, counted from any fixed moment.
pub struct Session {
    name: Arc<str>,
    idle_timeout: u128,
    last_activity: u128,
    pending: Option<String>,
}

/// The state of a [`Session`].
pub struct SessionView {
    /// Its username.
    pub name: Seq<char>,
    /// How long the client may be silent.
    pub idle_timeout: nat,
    /// When the client last sent a frame.
    pub last_activity: nat,
    /// A message that waits for the rate limiter's word.
    pub pending: Option<Seq<char>>,
}

impl View for Session {
    type V = SessionView;

    closed spec fn view(&self) -> SessionView {
        SessionView {
            name: self.name@,
            idle_timeout: self.idle_timeout as nat,
            last_activity: self.last_activity as nat,
            pending: match self.pending {
                Some(body) => Some(body@),
                None => None,
            },
        }
    }
}

/// What a session does about an event.
pub struct Reaction {
    /// The state it goes on with.
    pub next: SessionView,
    /// What it does.
    pub action: ActionView,
    /// What the others in the room get to see of it.
    pub published: Option<ServerFrameView>,
}

/// An `Error` frame with the given text.
pub open spec fn error_frame(reason: Seq<char>) -> ServerFrameView {
    ServerFrameView::Error { reason }
}

impl SessionView {
    /// The username is legal, and so is a message that waits.
    pub open spec fn wf(self) -> bool {
        &&& validated::valid_username(self.name)
        &&& self.pending matches Some(body) ==> validated::valid_body(body)
    }

    /// The client sent no frame for longer than it may.
    pub open spec fn idle(self, now: nat) -> bool {
        now > self.last_activity + self.idle_timeout
    }

    /// The end of the session.
    pub open spec fn finish(self, why: Ending, farewell: Option<ServerFrameView>) -> Reaction {
        Reaction { next: self, action: ActionView::Finish { why, farewell }, published: None }
    }

    /// An answer to the client, and to nobody else.
    pub open spec fn answer(self, action: ActionView) -> Reaction {
        Reaction { next: self, action, published: None }
    }

    /// What the session does about a frame that the client sent at `now`.
    pub open spec fn on_frame(self, frame: ClientFrameView, now: nat) -> Reaction {
        let active = SessionView { last_activity: now, ..self };
        match frame {
            ClientFrameView::Send { body } => match validated::check_body(body) {
                Err(e) => active.answer(ActionView::Reply(error_frame(e.text()))),
                Ok(_) => SessionView { pending: Some(body), ..active }.answer(
                    ActionView::TakeToken,
                ),
            },
            ClientFrameView::Pong => active.answer(ActionView::Wait),
            ClientFrameView::Leave => active.finish(Ending::Left, None),
            ClientFrameView::Hello { .. } => active.finish(
                Ending::SecondHello,
                Some(error_frame("protocol violation: Hello after handshake"@)),
            ),
        }
    }

    /// What the session does about the rate limiter's word on the message that
    /// waits for it.
    pub open spec fn on_token(self, granted: bool) -> Reaction {
        let idle = SessionView { pending: None, ..self };
        match self.pending {
            None => self.answer(ActionView::Wait),
            Some(body) => if granted {
                Reaction {
                    next: idle,
                    action: ActionView::Wait,
                    published: Some(ServerFrameView::Message { from: self.name, body }),
                }
            } else {
                idle.answer(ActionView::Reply(error_frame("rate limit exceeded; slow down"@)))
            },
        }
    }

    /// What the session does about an event at `now`.
    pub open spec fn on_event(self, event: Event, now: nat) -> Reaction {
        match event {
            Event::Shutdown => self.finish(
                Ending::Shutdown,
                Some(error_frame("server shutting down"@)),
            ),
            Event::Disconnected => self.finish(Ending::Disconnected, None),
            Event::Malformed => self.finish(Ending::Malformed, None),
            Event::Frame(frame) => self.on_frame(frame@, now),
            Event::Token(granted) => self.on_token(granted),
            Event::Mail(bytes) => self.answer(
                ActionView::Forward(buffer::shared_bytes(bytes)),
            ),
            Event::MailboxClosed => self.finish(Ending::MailboxClosed, None),
            Event::Tick => if self.idle(now) {
                self.finish(Ending::Idle, Some(error_frame("idle timeout"@)))
            } else {
                self.answer(ActionView::Reply(ServerFrameView::Ping))
            },
        }
    }
}

/// The frame was published in the room by `name`: everybody else was offered
/// its encoding. Without a frame, the room stays as it is.
pub open spec fn published_by(
    before: Map<Seq<char>, Outbox>,
    name: Seq<char>,
    frame: Option<ServerFrameView>,
    after: Map<Seq<char>, Outbox>,
) -> bool {
    match frame {
        Some(f) => hub::fanned_out(before, name, codec::framed(ServerFrame::encoding(f)), after),
        None => after == before,
    }
}

/// `name` left the room: it is registered no more, and everybody else was
/// offered the news.
pub open spec fn left_room(
    before: Map<Seq<char>, Outbox>,
    name: Seq<char>,
    after: Map<Seq<char>, Outbox>,
) -> bool {
    let news = codec::framed(
        ServerFrame::encoding(ServerFrameView::Departed { username: name }),
    );
    &&& after.dom() == before.dom().remove(name)
    &&& forall|other: Seq<char>| #[trigger]
        after.contains_key(other) ==> before[other].offered(news, after[other])
}

/// Encodes a frame that fits and offers it to everybody but `name`.
fn publish(hub: &mut Hub, name: &Arc<str>, frame: &ServerFrame)
    requires
        old(hub).wf(),
        frame::fits::<ServerFrame>(frame@),
    ensures
        final(hub).wf(),
        published_by(old(hub)@, name@, Some(frame@), final(hub)@),
{
    if let Ok(bytes) = codec::encode_frame(frame) {
        hub.broadcast(name, bytes);
    }
}

/// An owned copy of shared text.
fn owned(s: &Arc<str>) -> (r: String)
    ensures
        r@ == s@,
{
    let t: &str = s;
    t.to_owned()
}

/// An `Error` frame with the given text, which is short.
fn error_reply(reason: &str) -> (r: ServerFrame)
    requires
        reason@.len() <= 200,
    ensures
        r@ == error_frame(reason@),
        frame::fits::<ServerFrame>(r@),
{
    proof {
        text::lemma_bytes_per_char(reason@);
        frame::lemma_short_text_fits(reason@);
    }
    ServerFrame::Error { reason: reason.to_owned() }
}

impl Session {
    /// Enters the room: announces the session to everybody else.
    pub fn join(hub: &mut Hub, claim: &ClaimHandle, idle_timeout: u128, now: u128) -> (r: Session)
        requires
            old(hub).wf(),
            validated::valid_username(claim@),
        ensures
            final(hub).wf(),
            r@.wf(),
            r@ == (SessionView {
                name: claim@,
                idle_timeout: idle_timeout as nat,
                last_activity: now as nat,
                pending: None,
            }),
            published_by(
                old(hub)@,
                claim@,
                Some(ServerFrameView::Joined { username: claim@ }),
                final(hub)@,
            ),
    {
        let name = claim.username().clone();
        proof {
            frame::lemma_short_text_fits(name@);
        }
        publish(hub, &name, &ServerFrame::Joined { username: owned(&name) });
        Session { name, idle_timeout, last_activity: now, pending: None }
    }

    /// Answers one event, which happened at `now`.
    ///
    /// After [`Action::TakeToken`] the next event is the rate limiter's word,
    /// and it comes at no other time. Every frame for the client fits.
    pub fn step(&mut self, hub: &mut Hub, event: Event, now: u128) -> (r: Action)
        requires
            old(self)@.wf(),
            old(hub).wf(),
            old(self)@.pending is Some <==> event is Token,
        ensures
            final(self)@.wf(),
            final(hub).wf(),
            final(self)@ == old(self)@.on_event(event, now as nat).next,
            r@ == old(self)@.on_event(event, now as nat).action,
            published_by(
                old(hub)@,
                old(self)@.name,
                old(self)@.on_event(event, now as nat).published,
                final(hub)@,
            ),
            r matches Action::TakeToken <==> final(self)@.pending is Some,
            r matches Action::Reply(reply) ==> frame::fits::<ServerFrame>(reply@),
            r matches Action::Finish { farewell: Some(last), .. } ==> frame::fits::<ServerFrame>(
                last@,
            ),
    {
        proof {
            reveal_strlit("protocol violation: Hello after handshake");
            reveal_strlit("rate limit exceeded; slow down");
            reveal_strlit("server shutting down");
            reveal_strlit("idle timeout");
        }
        match event {
            Event::Shutdown => Action::Finish {
                why: Ending::Shutdown,
                farewell: Some(error_reply("server shutting down")),
            },
            Event::Disconnected => Action::Finish { why: Ending::Disconnected, farewell: None },
            Event::Malformed => Action::Finish { why: Ending::Malformed, farewell: None },
            Event::Frame(received) => self.step_frame(received, now),
            Event::Token(granted) => self.step_token(hub, granted),
            Event::Mail(bytes) => Action::Forward(bytes),
            Event::MailboxClosed => Action::Finish { why: Ending::MailboxClosed, farewell: None },
            Event::Tick => if now > self.last_activity && now - self.last_activity
                > self.idle_timeout {
                Action::Finish {
                    why: Ending::Idle,
                    farewell: Some(error_reply("idle timeout")),
                }
            } else {
                proof {
                    crate::payload::lemma_u32_read_back(5, Seq::empty());
                }
                Action::Reply(ServerFrame::Ping)
            },
        }
    }

    /// Answers a frame of the client.
    fn step_frame(&mut self, received: ClientFrame, now: u128) -> (r: Action)
        requires
            old(self)@.wf(),
            old(self)@.pending is None,
        ensures
            final(self)@.wf(),
            final(self)@ == old(self)@.on_frame(received@, now as nat).next,
            r@ == old(self)@.on_frame(received@, now as nat).action,
            r matches Action::TakeToken <==> final(self)@.pending is Some,
            r matches Action::Reply(reply) ==> frame::fits::<ServerFrame>(reply@),
            r matches Action::Finish { farewell: Some(last), .. } ==> frame::fits::<ServerFrame>(
                last@,
            ),
    {
        self.last_activity = now;
        match received {
            ClientFrame::Send { body } => match validated::validate_body_bytes(&body) {
                Err(e) => {
                    proof {
                        validated::lemma_error_text_len(e);
                    }
                    Action::Reply(error_reply(&e.message()))
                },
                Ok(_) => {
                    self.pending = Some(body);
                    Action::TakeToken
                },
            },
            ClientFrame::Pong => Action::Wait,
            ClientFrame::Leave => Action::Finish { why: Ending::Left, farewell: None },
            ClientFrame::Hello { .. } => {
                proof {
                    reveal_strlit("protocol violation: Hello after handshake");
                }
                Action::Finish {
                    why: Ending::SecondHello,
                    farewell: Some(error_reply("protocol violation: Hello after handshake")),
                }
            },
        }
    }

    /// Publishes the message that waits, or tells the client to slow down.
    fn step_token(&mut self, hub: &mut Hub, granted: bool) -> (r: Action)
        requires
            old(self)@.wf(),
            old(hub).wf(),
            old(self)@.pending is Some,
        ensures
            final(self)@.wf(),
            final(hub).wf(),
            final(self)@ == old(self)@.on_token(granted).next,
            r@ == old(self)@.on_token(granted).action,
            r is Wait || r is Reply,
            published_by(
                old(hub)@,
                old(self)@.name,
                old(self)@.on_token(granted).published,
                final(hub)@,
            ),
            r matches Action::Reply(reply) ==> frame::fits::<ServerFrame>(reply@),
    {
        let pending = self.pending.take();
        match pending {
            None => Action::Wait,
            Some(body) => if granted {
                proof {
                    frame::law_largest_message_fits(self.name@, body@);
                }
                publish(hub, &self.name, &ServerFrame::Message { from: owned(&self.name), body });
                Action::Wait
            } else {
                proof {
                    reveal_strlit("rate limit exceeded; slow down");
                }
                Action::Reply(error_reply("rate limit exceeded; slow down"))
            },
        }
    }

    /// Leaves the room: announces the departure to everybody else and gives
    /// the username back.
    pub fn depart(self, hub: &mut Hub, claim: ClaimHandle)
        requires
            self@.wf(),
            old(hub).wf(),
            claim@ == self@.name,
        ensures
            final(hub).wf(),
            left_room(old(hub)@, self@.name, final(hub)@),
            final(hub)@.dom().len() == if old(hub)@.contains_key(self@.name) {
                old(hub)@.dom().len() - 1
            } else {
                old(hub)@.dom().len() as int
            },
    {
        proof {
            frame::lemma_short_text_fits(self.name@);
        }
        publish(hub, &self.name, &ServerFrame::Departed { username: owned(&self.name) });
        hub.release(claim);
        assert(hub@.dom() =~= old(hub)@.dom().remove(self.name@));
    }
}

// ---------------------------------------------------------------------------
// Laws
// ---------------------------------------------------------------------------

/// Nothing that a session publishes is offered to the session itself, and
/// nobody comes or goes by it.
pub proof fn law_no_echo(
    before: Map<Seq<char>, Outbox>,
    name: Seq<char>,
    frame: Option<ServerFrameView>,
    after: Map<Seq<char>, Outbox>,
)
    requires
        published_by(before, name, frame, after),
    ensures
        after.dom() == before.dom(),
        before.contains_key(name) ==> after[name] == before[name],
{
    if before.contains_key(name) {
        assert(after.contains_key(name));
    }
}

/// What a session publishes is what everybody else reads: the bytes that they
/// are offered, whatever follows them on the connection, decode to the frame
/// that was published.
pub proof fn law_others_read_what_was_published(
    before: Map<Seq<char>, Outbox>,
    name: Seq<char>,
    frame: ServerFrameView,
    after: Map<Seq<char>, Outbox>,
    other: Seq<char>,
    rest: Seq<u8>,
    r: Result<Option<ServerFrame>, ProtocolError>,
    left: Seq<u8>,
)
    requires
        published_by(before, name, Some(frame), after),
        frame::fits::<ServerFrame>(frame),
        before.contains_key(other),
        other != name,
        codec::decoded::<ServerFrame>(after[other].offers.last().frame + rest, r, left),
    ensures
        r matches Ok(Some(item)) && item@ == frame,
        left == rest,
{
    assert(after.contains_key(other));
    codec::law_decode_undoes_encode::<ServerFrame>(frame, rest, r, left);
}

/// A message with a legal body for which the rate limiter grants a token is
/// published under the sender's name, and the session goes on.
pub proof fn law_granted_message_is_published(session: SessionView, body: Seq<char>, now: nat)
    requires
        validated::valid_body(body),
    ensures
        ({
            let asked = session.on_frame(ClientFrameView::Send { body }, now);
            let granted = asked.next.on_token(true);
            &&& asked.action == ActionView::TakeToken
            &&& asked.published is None
            &&& granted.action == ActionView::Wait
            &&& granted.published == Some(
                ServerFrameView::Message { from: session.name, body },
            )
            &&& granted.next == (SessionView { last_activity: now, pending: None, ..session })
        }),
{
}

/// A session ends when the server shuts down, when the client disconnects,
/// leaves, sends what is no frame or a second `Hello`, when its mailbox is
/// closed, and when a heartbeat finds it idle; and at no other time.
pub proof fn law_when_a_session_ends(session: SessionView, event: Event, now: nat)
    ensures
        session.on_event(event, now).action is Finish <==> {
            ||| event is Shutdown
            ||| event is Disconnected
            ||| event is Malformed
            ||| event is MailboxClosed
            ||| event matches Event::Frame(frame) && (frame@ is Leave || frame@ is Hello)
            ||| event is Tick && session.idle(now)
        },
{
}

/// A session publishes nothing but chat messages with a legal body, under its
/// own name, and each only after the rate limiter granted a token for it.
pub proof fn law_publishes_only_granted_messages(session: SessionView, event: Event, now: nat)
    requires
        session.wf(),
    ensures
        session.on_event(event, now).published matches Some(frame) ==> {
            &&& event matches Event::Token(granted)
            &&& granted
            &&& session.pending matches Some(body)
            &&& validated::valid_body(body)
            &&& frame == (ServerFrameView::Message { from: session.name, body })
        },
{
}

/// A message with an illegal body is answered with an error, and with a word
/// from the rate limiter against it too; neither ends the session nor reaches
/// anybody else.
pub proof fn law_refused_message_does_not_disconnect(
    session: SessionView,
    body: Seq<char>,
    now: nat,
)
    ensures
        !validated::valid_body(body) ==> {
            let reaction = session.on_frame(ClientFrameView::Send { body }, now);
            &&& reaction.action is Reply
            &&& reaction.action->Reply_0 is Error
            &&& reaction.published is None
        },
        session.pending is Some ==> {
            let reaction = session.on_token(false);
            &&& reaction.action is Reply
            &&& reaction.action->Reply_0 is Error
            &&& reaction.published is None
        },
{
}

/// Every frame of the client counts as activity: a session that goes on after
/// one is pinged, not ended, by heartbeats until the idle timeout has passed,
/// and is ended by any heartbeat after that.
pub proof fn law_every_frame_counts_as_activity(
    session: SessionView,
    frame: ClientFrameView,
    sent: nat,
    tick: nat,
)
    ensures
        ({
            let next = session.on_frame(frame, sent).next;
            let reaction = next.on_event(Event::Tick, tick);
            if tick <= sent + session.idle_timeout {
                reaction.action == ActionView::Reply(ServerFrameView::Ping)
            } else {
                reaction.action is Finish && reaction.action->why == Ending::Idle
            }
        }),
{
}

/// Frames from the room and heartbeats do not count as activity, and whatever
/// happens, a session keeps its name and its idle timeout.
pub proof fn law_only_frames_count_as_activity(session: SessionView, event: Event, now: nat)
    ensures
        ({
            let next = session.on_event(event, now).next;
            &&& next.name == session.name
            &&& next.idle_timeout == session.idle_timeout
            &&& next.last_activity == if event is Frame {
                now
            } else {
                session.last_activity
            }
        }),
{
}

/// A username that was admitted is refused to everybody else for as long as it
/// is registered, whoever else comes and goes; once its session has departed,
/// it can be had again.
pub proof fn law_username_is_held_until_departure(
    before: Map<Seq<char>, Outbox>,
    first: ClientFrame,
    r: Handshake,
    admitted: Map<Seq<char>, Outbox>,
    served: Map<Seq<char>, Outbox>,
    after: Map<Seq<char>, Outbox>,
)
    requires
        answered(before, FirstEvent::Frame(first), r, admitted),
        r is Admitted,
        served.contains_key(asked_name(first@)),
        left_room(served, asked_name(first@), after),
    ensures
        refusal(first@, admitted.dom()) == Some(Refusal::NameTaken),
        refusal(first@, served.dom()) == Some(Refusal::NameTaken),
        refusal(first@, after.dom()) is None,
{
}

/// A session leaves no trace in the registry. Between its admission and its
/// departure anybody may come, speak and go, as long as nobody else gives its
/// claim back: the username stays registered until the departure, and the
/// usernames that are registered in the end are those that would be there
/// without the session.
pub proof fn law_session_leaves_no_trace(
    before: Map<Seq<char>, Outbox>,
    event: FirstEvent,
    r: Handshake,
    rooms: Seq<Map<Seq<char>, Outbox>>,
    calls: Seq<Call>,
    after: Map<Seq<char>, Outbox>,
)
    requires
        answered(before, event, r, rooms[0]),
        r is Admitted,
        hub::history(rooms, calls),
        forall|i: int|
            0 <= i < calls.len() ==> (#[trigger] calls[i] matches Call::Released { name } ==> name
                != r->claim@),
        left_room(rooms.last(), r->claim@, after),
    ensures
        rooms.last().contains_key(r->claim@),
        !after.contains_key(r->claim@),
        after.dom() == hub::names_after(before.dom(), calls),
{
    let name = r->claim@;
    assert(rooms[0].dom() =~= before.dom().insert(name));
    lemma_name_stays(name, before.dom(), rooms, calls);
    assert(rooms.last().dom().contains(name));
    assert(after.dom() =~= hub::names_after(before.dom(), calls));
}

/// A username that nobody gives back is the only difference it makes.
proof fn lemma_name_stays(
    name: Seq<char>,
    others: Set<Seq<char>>,
    rooms: Seq<Map<Seq<char>, Outbox>>,
    calls: Seq<Call>,
)
    requires
        hub::history(rooms, calls),
        rooms[0].dom() == others.insert(name),
        !others.contains(name),
        forall|i: int|
            0 <= i < calls.len() ==> (#[trigger] calls[i] matches Call::Released { name: gone }
                ==> gone != name),
    ensures
        rooms.last().dom() == hub::names_after(others, calls).insert(name),
        !hub::names_after(others, calls).contains(name),
    decreases calls.len(),
{
    if calls.len() > 0 {
        let n = calls.len() - 1;
        hub::lemma_history_prefix(rooms, calls);
        lemma_name_stays(name, others, rooms.drop_last(), calls.drop_last());
        assert(hub::called(rooms[n], calls[n], rooms[n + 1]));
        assert(rooms[n].dom().contains(name));
        assert(rooms.last().dom() =~= hub::names_after(others, calls).insert(name));
    }
}

// ---------------------------------------------------------------------------
// Who is admitted, and what the others are told
// ---------------------------------------------------------------------------

/// `name` has between one and 32 characters, each an ASCII letter or digit, `_`
/// or `-`.
pub open spec fn well_named(name: Seq<char>) -> bool {
    &&& 1 <= name.len() <= 32
    &&& forall|i: int| 0 <= i < name.len() ==> validated::username_char(#[trigger] name[i])
}

/// A client is admitted if and only if its first frame is a `Hello` of version
/// 1 with a legal username that nobody in the room holds.
pub proof fn law_who_is_admitted(
    before: Map<Seq<char>, Outbox>,
    event: FirstEvent,
    r: Handshake,
    after: Map<Seq<char>, Outbox>,
)
    requires
        answered(before, event, r, after),
    ensures
        r is Admitted <==> {
            &&& event matches FirstEvent::Frame(first)
            &&& first@ matches ClientFrameView::Hello { version, username }
            &&& version == 1
            &&& well_named(username)
            &&& !before.contains_key(username)
        },
        r is Refused <==> event is Frame && !(r is Admitted),
{
    if let FirstEvent::Frame(first) = event {
        validated::law_username_rules(asked_name(first@));
    }
}

/// An admitted client holds the username that it asked for, with a mailbox of
/// its own in which 256 frames have room and none is yet; everybody else is
/// left alone. It is welcomed by name, and told how many are in the room with
/// it.
pub proof fn law_admitted_client_is_welcomed(
    before: Map<Seq<char>, Outbox>,
    first: ClientFrame,
    r: Handshake,
    after: Map<Seq<char>, Outbox>,
)
    requires
        answered(before, FirstEvent::Frame(first), r, after),
        r is Admitted,
    ensures
        ({
            let count = before.dom().len() + 1;
            &&& first@ matches ClientFrameView::Hello { version: _, username }
            &&& r matches Handshake::Admitted { claim, mailbox, welcome }
            &&& claim@ == username
            &&& after.dom() == before.dom().insert(username)
            &&& after[username].channel == mailbox::inbox(mailbox)
            &&& after[username].depth == 256
            &&& after[username].offers.len() == 0
            &&& forall|other: Seq<char>|
                other != username && #[trigger] before.contains_key(other) ==> after[other]
                    == before[other]
            &&& welcome@ matches ServerFrameView::Welcome { motd, occupancy }
            &&& motd == "welcome, "@ + username + "."@
            &&& occupancy == if count <= 0xffff_ffff {
                count
            } else {
                0xffff_ffff
            }
        }),
{
    assert(after.dom() =~= before.dom().insert(asked_name(first@)));
}

/// A refused client changes nothing in the room, and is told what is wrong
/// with its first frame: that it is no `Hello`, which versions differ, which
/// rule its username breaks, or, where none of these is so, that its username
/// is taken, and then it is.
pub proof fn law_refused_client_is_told_why(
    before: Map<Seq<char>, Outbox>,
    first: ClientFrame,
    r: Handshake,
    after: Map<Seq<char>, Outbox>,
)
    requires
        answered(before, FirstEvent::Frame(first), r, after),
        r is Refused,
        utf8::encode_utf8(asked_name(first@)).len() <= usize::MAX,
    ensures
        ({
            &&& after == before
            &&& r matches Handshake::Refused { why, reply, first: refused }
            &&& refused@ == first@
            &&& reply@ matches ServerFrameView::Rejected { reason }
            &&& match first@ {
                ClientFrameView::Hello { version, username } => {
                    let size = utf8::encode_utf8(username).len();
                    if version != 1 {
                        &&& why == (Refusal::VersionMismatch { client: version })
                        &&& reason == "protocol version mismatch: server=1, client="@
                            + text::decimal(version as nat)
                    } else if username.len() == 0 {
                        &&& why is InvalidUsername
                        &&& reason == "username is empty (must be 1..=32 bytes)"@
                    } else if size > 32 {
                        &&& why is InvalidUsername
                        &&& reason == "username is "@ + text::decimal(size) + " bytes; max is 32"@
                    } else if !well_named(username) {
                        &&& why is InvalidUsername
                        &&& reason
                            == "username contains an invalid byte (allowed: ASCII alnum, '_', '-')"@
                    } else {
                        &&& why == Refusal::NameTaken
                        &&& before.contains_key(username)
                        &&& reason == "username '"@ + username + "' is already taken"@
                    }
                },
                _ => why == Refusal::NotHello && reason == "first frame must be Hello"@,
            }
        }),
{
    if let ClientFrameView::Hello { version, username } = first@ {
        let size = utf8::encode_utf8(username).len();
        validated::law_username_rules(username);
        reveal_strlit("protocol version mismatch: server=1, client=");
        reveal_strlit("protocol version mismatch: server=");
        reveal_strlit(", client=");
        reveal_strlit(" bytes; max is 32");
        reveal_strlit(" bytes; max is ");
        reveal_with_fuel(text::decimal, 3);
        assert("protocol version mismatch: server="@ + text::decimal(1) + ", client="@
            =~= "protocol version mismatch: server=1, client="@);
        assert(text::decimal(32) =~= seq!['3', '2']);
        assert("username is "@ + text::decimal(size) + " bytes; max is "@ + text::decimal(32)
            =~= "username is "@ + text::decimal(size) + " bytes; max is 32"@);
    }
}

/// Where no frame came first, nobody is answered, and nothing changes in the
/// room.
pub proof fn law_nobody_is_answered_without_a_frame(
    before: Map<Seq<char>, Outbox>,
    event: FirstEvent,
    r: Handshake,
    after: Map<Seq<char>, Outbox>,
)
    requires
        answered(before, event, r, after),
        !(event is Frame),
    ensures
        r is Abandoned,
        after == before,
{
}

/// What a session publishes is one more offer for everybody else, and for
/// nobody twice: they keep what they were offered before, and their mailboxes.
/// Where it publishes nothing, nothing changes in the room.
pub proof fn law_published_once(
    before: Map<Seq<char>, Outbox>,
    name: Seq<char>,
    frame: Option<ServerFrameView>,
    after: Map<Seq<char>, Outbox>,
    other: Seq<char>,
)
    requires
        published_by(before, name, frame, after),
    ensures
        after.dom() == before.dom(),
        frame is None ==> after == before,
        frame is Some && before.contains_key(other) && other != name ==> {
            &&& after[other].offers.len() == before[other].offers.len() + 1
            &&& after[other].offers.drop_last() == before[other].offers
            &&& after[other].channel == before[other].channel
            &&& after[other].depth == before[other].depth
        },
{
    if frame is Some && before.contains_key(other) {
        assert(after.contains_key(other));
    }
}

/// A departure is announced: everybody else is offered one more frame, and
/// those bytes, whatever follows them on the connection, decode to the news
/// that this user departed. The departed user is gone, and everybody else
/// stays.
pub proof fn law_departure_is_announced(
    before: Map<Seq<char>, Outbox>,
    name: Seq<char>,
    after: Map<Seq<char>, Outbox>,
    other: Seq<char>,
    rest: Seq<u8>,
    r: Result<Option<ServerFrame>, ProtocolError>,
    left: Seq<u8>,
)
    requires
        left_room(before, name, after),
        well_named(name),
        before.contains_key(other),
        other != name,
        codec::decoded::<ServerFrame>(after[other].offers.last().frame + rest, r, left),
    ensures
        !after.contains_key(name),
        after.contains_key(other),
        after[other].offers.len() == before[other].offers.len() + 1,
        after[other].offers.drop_last() == before[other].offers,
        after[other].channel == before[other].channel,
        after[other].depth == before[other].depth,
        r matches Ok(Some(item)) && item@ == (ServerFrameView::Departed { username: name }),
        left == rest,
{
    assert(before.dom().remove(name).contains(other));
    assert(after.contains_key(other));
    validated::law_username_rules(name);
    frame::lemma_short_text_fits(name);
    codec::law_decode_undoes_encode::<ServerFrame>(
        ServerFrameView::Departed { username: name },
        rest,
        r,
        left,
    );
}

/// An arrival is announced: what a session publishes when it joins decodes, at
/// everybody else, to the news that this user joined.
pub proof fn law_arrival_is_announced(
    before: Map<Seq<char>, Outbox>,
    name: Seq<char>,
    after: Map<Seq<char>, Outbox>,
    other: Seq<char>,
    rest: Seq<u8>,
    r: Result<Option<ServerFrame>, ProtocolError>,
    left: Seq<u8>,
)
    requires
        published_by(before, name, Some(ServerFrameView::Joined { username: name }), after),
        well_named(name),
        before.contains_key(other),
        other != name,
        codec::decoded::<ServerFrame>(after[other].offers.last().frame + rest, r, left),
    ensures
        r matches Ok(Some(item)) && item@ == (ServerFrameView::Joined { username: name }),
        left == rest,
{
    validated::law_username_rules(name);
    frame::lemma_short_text_fits(name);
    law_others_read_what_was_published(
        before,
        name,
        ServerFrameView::Joined { username: name },
        after,
        other,
        rest,
        r,
        left,
    );
}

// ---------------------------------------------------------------------------
// What a session does about each event
// ---------------------------------------------------------------------------

/// All mail is handed to the client, byte by byte as it came, whenever it comes
/// and however the session stands; nothing else comes of it.
pub proof fn law_mail_is_forwarded(session: SessionView, bytes: Bytes, now: nat)
    ensures
        ({
            let reaction = session.on_event(Event::Mail(bytes), now);
            &&& reaction.action == ActionView::Forward(buffer::shared_bytes(bytes))
            &&& reaction.next == session
            &&& reaction.published is None
        }),
{
}

/// A message of one to 4096 bytes waits for the rate limiter's word, whenever
/// that comes. Where a token is granted, exactly this message is published,
/// under the session's name; where it is not, the client is told to slow down
/// and nobody else hears of it. Either way the session goes on and the message
/// is no longer waiting.
pub proof fn law_message_waits_for_a_token(
    session: SessionView,
    frame: ClientFrame,
    body: Seq<char>,
    sent: nat,
    word: nat,
)
    requires
        frame@ == (ClientFrameView::Send { body }),
        body.len() > 0,
        utf8::encode_utf8(body).len() <= 4096,
    ensures
        ({
            let asked = session.on_event(Event::Frame(frame), sent);
            let granted = asked.next.on_event(Event::Token(true), word);
            let refused = asked.next.on_event(Event::Token(false), word);
            let served = SessionView { last_activity: sent, pending: None, ..session };
            &&& asked.action == ActionView::TakeToken
            &&& asked.published is None
            &&& asked.next == (SessionView { pending: Some(body), ..served })
            &&& granted.action == ActionView::Wait
            &&& granted.published == Some(ServerFrameView::Message { from: session.name, body })
            &&& granted.next == served
            &&& refused.action == ActionView::Reply(
                ServerFrameView::Error { reason: "rate limit exceeded; slow down"@ },
            )
            &&& refused.published is None
            &&& refused.next == served
        }),
{
    validated::law_body_rules(body);
}

/// A message that is empty or takes more than 4096 bytes is answered with what
/// is wrong with it; nobody else hears of it, and the session goes on.
pub proof fn law_illegal_message_is_answered(
    session: SessionView,
    frame: ClientFrame,
    body: Seq<char>,
    now: nat,
)
    requires
        frame@ == (ClientFrameView::Send { body }),
        body.len() == 0 || 4096 < utf8::encode_utf8(body).len() <= usize::MAX,
    ensures
        ({
            let reaction = session.on_event(Event::Frame(frame), now);
            &&& reaction.action matches ActionView::Reply(ServerFrameView::Error { reason })
            &&& reason == if body.len() == 0 {
                "body is empty"@
            } else {
                "body is "@ + text::decimal(utf8::encode_utf8(body).len())
                    + " bytes; max is 4096"@
            }
            &&& reaction.next == (SessionView { last_activity: now, ..session })
            &&& reaction.published is None
        }),
{
    validated::law_body_rules(body);
    let size = utf8::encode_utf8(body).len();
    reveal_strlit(" bytes; max is 4096");
    reveal_strlit(" bytes; max is ");
    reveal_with_fuel(text::decimal, 5);
    assert(text::decimal(4096) =~= seq!['4', '0', '9', '6']);
    assert("body is "@ + text::decimal(size) + " bytes; max is "@ + text::decimal(4096)
        =~= "body is "@ + text::decimal(size) + " bytes; max is 4096"@);
}

/// A `Pong` is activity and nothing else. A `Leave` ends the session without a
/// farewell; a second `Hello` ends it too, and the client is told of the
/// violation. Nobody else hears of any of them.
pub proof fn law_other_frames_of_the_client(session: SessionView, frame: ClientFrame, now: nat)
    requires
        !(frame@ is Send),
    ensures
        ({
            let reaction = session.on_event(Event::Frame(frame), now);
            &&& reaction.next == (SessionView { last_activity: now, ..session })
            &&& reaction.published is None
            &&& frame@ is Pong ==> reaction.action == ActionView::Wait
            &&& frame@ is Leave ==> reaction.action == (ActionView::Finish {
                why: Ending::Left,
                farewell: None,
            })
            &&& frame@ is Hello ==> reaction.action == (ActionView::Finish {
                why: Ending::SecondHello,
                farewell: Some(
                    ServerFrameView::Error { reason: "protocol violation: Hello after handshake"@ },
                ),
            })
        }),
{
}

/// A heartbeat ends the session if and only if the client sent nothing for
/// longer than it may, and then tells it so; otherwise it is a `Ping` for the
/// client, and changes nothing.
pub proof fn law_heartbeat_pings_or_ends(session: SessionView, now: nat)
    ensures
        ({
            let reaction = session.on_event(Event::Tick, now);
            &&& reaction.next == session
            &&& reaction.published is None
            &&& reaction.action == if now - session.last_activity > session.idle_timeout {
                ActionView::Finish {
                    why: Ending::Idle,
                    farewell: Some(ServerFrameView::Error { reason: "idle timeout"@ }),
                }
            } else {
                ActionView::Reply(ServerFrameView::Ping)
            }
        }),
{
}

/// A shutdown, a lost connection, bytes that are no frame and a closed mailbox
/// each end the session, whatever its state, for that reason; only on a
/// shutdown is the client told.
pub proof fn law_why_a_session_ends(session: SessionView, event: Event, now: nat)
    requires
        event is Shutdown || event is Disconnected || event is Malformed || event is MailboxClosed,
    ensures
        ({
            let reaction = session.on_event(event, now);
            &&& reaction.next == session
            &&& reaction.published is None
            &&& reaction.action matches ActionView::Finish { why, farewell }
            &&& event is Shutdown <==> why == Ending::Shutdown
            &&& event is Disconnected <==> why == Ending::Disconnected
            &&& event is Malformed <==> why == Ending::Malformed
            &&& event is MailboxClosed <==> why == Ending::MailboxClosed
            &&& farewell == if event is Shutdown {
                Some(ServerFrameView::Error { reason: "server shutting down"@ })
            } else {
                None
            }
        }),
{
}

/// The view of an action is the action, with its frames and bytes.
pub proof fn law_action_views(action: Action)
    ensures
        match action {
            Action::Wait => action@ == ActionView::Wait,
            Action::TakeToken => action@ == ActionView::TakeToken,
            Action::Reply(frame) => action@ == ActionView::Reply(frame@),
            Action::Forward(bytes) => action@ == ActionView::Forward(buffer::shared_bytes(bytes)),
            Action::Finish { why, farewell: None } => action@ == (ActionView::Finish {
                why,
                farewell: None,
            }),
            Action::Finish { why, farewell: Some(frame) } => action@ == (ActionView::Finish {
                why,
                farewell: Some(frame@),
            }),
        },
{
}

/// What a refused client is told names what it asked for and what is wrong with
/// it.
pub proof fn law_refusal_texts(name: Seq<char>, client: u8, error: ValidationError)
    ensures
        Refusal::NotHello.text(name) == "first frame must be Hello"@,
        (Refusal::VersionMismatch { client }).text(name) == "protocol version mismatch: server="@
            + text::decimal(1) + ", client="@ + text::decimal(client as nat),
        (Refusal::InvalidUsername { error }).text(name) == error.text(),
        Refusal::NameTaken.text(name) == "username '"@ + name + "' is already taken"@,
{
}

} // verus!
