//! The frames that client and server exchange, and their payload format.

use vstd::prelude::*;
use vstd::utf8;

use crate::limits::{MAX_BODY_BYTES, MAX_FRAME_BYTES, MAX_USERNAME_BYTES};
use crate::payload;
use crate::payload::PayloadError;
use crate::validated;
use crate::validated::{MessageBody, UserName};

verus! {

// ---------------------------------------------------------------------------
// Frames
// ---------------------------------------------------------------------------

/// Frames the client sends to the server.
///
/// Text fields are plain strings, so that the server can answer text that
/// breaks the rules with a `Rejected` or `Error` frame rather than fail to
/// decode it.
#[derive(Debug, PartialEq, Eq)]
pub enum ClientFrame {
    /// Handshake. `version` must equal [`crate::PROTOCOL_VERSION`].
    Hello {
        /// Client's protocol version.
        version: u8,
        /// Desired username. Validated by [`UserName::new`].
        username: String,
    },
    /// Broadcast `body` to every other connected user.
    Send {
        /// UTF-8 body. Validated by [`crate::validate_body_bytes`].
        body: String,
    },
    /// Reply to a server [`ServerFrame::Ping`].
    Pong,
    /// Politely disconnect.
    Leave,
}

/// Frames the server sends to the client.
#[derive(Debug, PartialEq, Eq)]
pub enum ServerFrame {
    /// Handshake accepted.
    Welcome {
        /// Free-form welcome banner.
        motd: String,
        /// Current room occupancy after this user joined.
        occupancy: u32,
    },
    /// Handshake rejected. The server closes the socket after sending this.
    Rejected {
        /// Why the handshake was rejected.
        reason: String,
    },
    /// Someone else joined the room.
    Joined {
        /// The username that joined.
        username: String,
    },
    /// Someone else left the room.
    Departed {
        /// The username that left.
        username: String,
    },
    /// A chat message from `from`. Never delivered back to `from`.
    Message {
        /// The sender.
        from: String,
        /// The body.
        body: String,
    },
    /// Liveness probe. The client should reply with [`ClientFrame::Pong`].
    Ping,
    /// A non-fatal server-side error notice.
    Error {
        /// Human-readable error description.
        reason: String,
    },
}

/// A [`ClientFrame`] with its text as sequences of characters.
pub enum ClientFrameView {
    Hello { version: u8, username: Seq<char> },
    Send { body: Seq<char> },
    Pong,
    Leave,
}

/// A [`ServerFrame`] with its text as sequences of characters.
pub enum ServerFrameView {
    Welcome { motd: Seq<char>, occupancy: u32 },
    Rejected { reason: Seq<char> },
    Joined { username: Seq<char> },
    Departed { username: Seq<char> },
    Message { from: Seq<char>, body: Seq<char> },
    Ping,
    Error { reason: Seq<char> },
}

impl View for ClientFrame {
    type V = ClientFrameView;

    open spec fn view(&self) -> ClientFrameView {
        match *self {
            ClientFrame::Hello { version, username } => ClientFrameView::Hello {
                version,
                username: username@,
            },
            ClientFrame::Send { body } => ClientFrameView::Send { body: body@ },
            ClientFrame::Pong => ClientFrameView::Pong,
            ClientFrame::Leave => ClientFrameView::Leave,
        }
    }
}

impl View for ServerFrame {
    type V = ServerFrameView;

    open spec fn view(&self) -> ServerFrameView {
        match *self {
            ServerFrame::Welcome { motd, occupancy } => ServerFrameView::Welcome {
                motd: motd@,
                occupancy,
            },
            ServerFrame::Rejected { reason } => ServerFrameView::Rejected { reason: reason@ },
            ServerFrame::Joined { username } => ServerFrameView::Joined { username: username@ },
            ServerFrame::Departed { username } => ServerFrameView::Departed {
                username: username@,
            },
            ServerFrame::Message { from, body } => ServerFrameView::Message {
                from: from@,
                body: body@,
            },
            ServerFrame::Ping => ServerFrameView::Ping,
            ServerFrame::Error { reason } => ServerFrameView::Error { reason: reason@ },
        }
    }
}

impl Clone for ClientFrame {
    fn clone(&self) -> (r: ClientFrame)
        ensures
            r@ == self@,
    {
        match self {
            ClientFrame::Hello { version, username } => ClientFrame::Hello {
                version: *version,
                username: username.clone(),
            },
            ClientFrame::Send { body } => ClientFrame::Send { body: body.clone() },
            ClientFrame::Pong => ClientFrame::Pong,
            ClientFrame::Leave => ClientFrame::Leave,
        }
    }
}

impl Clone for ServerFrame {
    fn clone(&self) -> (r: ServerFrame)
        ensures
            r@ == self@,
    {
        match self {
            ServerFrame::Welcome { motd, occupancy } => ServerFrame::Welcome {
                motd: motd.clone(),
                occupancy: *occupancy,
            },
            ServerFrame::Rejected { reason } => ServerFrame::Rejected { reason: reason.clone() },
            ServerFrame::Joined { username } => ServerFrame::Joined { username: username.clone() },
            ServerFrame::Departed { username } => ServerFrame::Departed {
                username: username.clone(),
            },
            ServerFrame::Message { from, body } => ServerFrame::Message {
                from: from.clone(),
                body: body.clone(),
            },
            ServerFrame::Ping => ServerFrame::Ping,
            ServerFrame::Error { reason } => ServerFrame::Error { reason: reason.clone() },
        }
    }
}

// ---------------------------------------------------------------------------
// Payloads
// ---------------------------------------------------------------------------

/// A value that travels as the payload of a frame.
pub trait Payload: View + Sized {
    /// The values of the type.
    spec fn legal(v: Self::V) -> bool;

    /// The payload of `v`.
    spec fn encoding(v: Self::V) -> Seq<u8>;

    /// The value that a payload stands for. Bytes behind the value are
    /// ignored.
    spec fn decoding(bytes: Seq<u8>) -> Result<Self::V, PayloadError>;

    /// A payload that a `usize` can measure is read back as the value it was
    /// made of, whatever follows it.
    proof fn lemma_read_back(v: Self::V, rest: Seq<u8>)
        requires
            Self::legal(v),
            Self::encoding(v).len() <= usize::MAX,
        ensures
            Self::decoding(Self::encoding(v) + rest) == Ok::<_, PayloadError>(v),
    ;

    /// Only values of the type are read.
    proof fn lemma_reads_legal(bytes: Seq<u8>)
        ensures
            Self::decoding(bytes) matches Ok(v) ==> Self::legal(v),
    ;

    /// Writes the payload.
    fn serialize(&self) -> (bytes: Vec<u8>)
        ensures
            Self::legal(self@),
            bytes@ == Self::encoding(self@),
    ;

    /// Reads a payload.
    fn deserialize(bytes: &[u8]) -> (r: Result<Self, PayloadError>)
        ensures
            match r {
                Ok(value) => Self::decoding(bytes@) == Ok::<_, PayloadError>(value@),
                Err(e) => Self::decoding(bytes@) == Err::<Self::V, _>(e),
            },
    ;
}

/// A payload that is one string: the text of a payload.
pub open spec fn text_payload(bytes: Seq<u8>) -> Result<Seq<char>, PayloadError> {
    match payload::read_text(bytes) {
        Ok((s, _)) => Ok(s),
        Err(e) => Err(e),
    }
}

/// Reads a payload that is one string.
fn take_text_payload(bytes: &[u8]) -> (r: Result<String, PayloadError>)
    ensures
        match r {
            Ok(s) => text_payload(bytes@) == Ok::<_, PayloadError>(s@),
            Err(e) => text_payload(bytes@) == Err::<Seq<char>, _>(e),
        },
{
    match payload::take_text(bytes) {
        Ok((s, _)) => Ok(s),
        Err(e) => Err(e),
    }
}

impl Payload for ClientFrame {
    open spec fn legal(v: ClientFrameView) -> bool {
        true
    }

    open spec fn encoding(v: ClientFrameView) -> Seq<u8> {
        match v {
            ClientFrameView::Hello { version, username } => payload::varint(0) + seq![version]
                + payload::text_bytes(username),
            ClientFrameView::Send { body } => payload::varint(1) + payload::text_bytes(body),
            ClientFrameView::Pong => payload::varint(2),
            ClientFrameView::Leave => payload::varint(3),
        }
    }

    open spec fn decoding(bytes: Seq<u8>) -> Result<ClientFrameView, PayloadError> {
        match payload::read_u32(bytes) {
            Err(e) => Err(e),
            Ok((variant, rest)) => if variant == 0 {
                match payload::read_u8(rest) {
                    Err(e) => Err(e),
                    Ok((version, rest)) => match text_payload(rest) {
                        Err(e) => Err(e),
                        Ok(username) => Ok(ClientFrameView::Hello { version, username }),
                    },
                }
            } else if variant == 1 {
                match text_payload(rest) {
                    Err(e) => Err(e),
                    Ok(body) => Ok(ClientFrameView::Send { body }),
                }
            } else if variant == 2 {
                Ok(ClientFrameView::Pong)
            } else if variant == 3 {
                Ok(ClientFrameView::Leave)
            } else {
                Err(PayloadError::Custom)
            },
        }
    }

    proof fn lemma_read_back(v: ClientFrameView, rest: Seq<u8>) {
        match v {
            ClientFrameView::Hello { version, username } => {
                let text = payload::text_bytes(username);
                payload::lemma_text_read_back(username, rest);
                payload::lemma_u8_read_back(version, text + rest);
                payload::lemma_u32_read_back(0, seq![version] + (text + rest));
                assert(Self::encoding(v) + rest =~= payload::varint(0) + (seq![version] + (text
                    + rest)));
            },
            ClientFrameView::Send { body } => {
                let text = payload::text_bytes(body);
                payload::lemma_text_read_back(body, rest);
                payload::lemma_u32_read_back(1, text + rest);
                assert(Self::encoding(v) + rest =~= payload::varint(1) + (text + rest));
            },
            ClientFrameView::Pong => {
                payload::lemma_u32_read_back(2, rest);
            },
            ClientFrameView::Leave => {
                payload::lemma_u32_read_back(3, rest);
            },
        }
    }

    proof fn lemma_reads_legal(bytes: Seq<u8>) {
    }

    fn serialize(&self) -> (bytes: Vec<u8>) {
        match self {
            ClientFrame::Hello { version, username } => {
                let mut out = payload::write_u32(0);
                out.extend_from_slice(&payload::write_u8(*version));
                out.extend_from_slice(&payload::write_text(username));
                out
            },
            ClientFrame::Send { body } => {
                let mut out = payload::write_u32(1);
                out.extend_from_slice(&payload::write_text(body));
                out
            },
            ClientFrame::Pong => payload::write_u32(2),
            ClientFrame::Leave => payload::write_u32(3),
        }
    }

    fn deserialize(bytes: &[u8]) -> (r: Result<ClientFrame, PayloadError>) {
        let (variant, rest) = match payload::take_u32(bytes) {
            Ok(taken) => taken,
            Err(e) => return Err(e),
        };
        match variant {
            0 => match payload::take_u8(rest) {
                Err(e) => Err(e),
                Ok((version, rest)) => match take_text_payload(rest) {
                    Err(e) => Err(e),
                    Ok(username) => Ok(ClientFrame::Hello { version, username }),
                },
            },
            1 => match take_text_payload(rest) {
                Err(e) => Err(e),
                Ok(body) => Ok(ClientFrame::Send { body }),
            },
            2 => Ok(ClientFrame::Pong),
            3 => Ok(ClientFrame::Leave),
            _ => Err(PayloadError::Custom),
        }
    }
}

impl Payload for ServerFrame {
    open spec fn legal(v: ServerFrameView) -> bool {
        true
    }

    open spec fn encoding(v: ServerFrameView) -> Seq<u8> {
        match v {
            ServerFrameView::Welcome { motd, occupancy } => payload::varint(0)
                + payload::text_bytes(motd) + payload::varint(occupancy as nat),
            ServerFrameView::Rejected { reason } => payload::varint(1) + payload::text_bytes(
                reason,
            ),
            ServerFrameView::Joined { username } => payload::varint(2) + payload::text_bytes(
                username,
            ),
            ServerFrameView::Departed { username } => payload::varint(3) + payload::text_bytes(
                username,
            ),
            ServerFrameView::Message { from, body } => payload::varint(4) + payload::text_bytes(
                from,
            ) + payload::text_bytes(body),
            ServerFrameView::Ping => payload::varint(5),
            ServerFrameView::Error { reason } => payload::varint(6) + payload::text_bytes(reason),
        }
    }

    open spec fn decoding(bytes: Seq<u8>) -> Result<ServerFrameView, PayloadError> {
        match payload::read_u32(bytes) {
            Err(e) => Err(e),
            Ok((variant, rest)) => if variant == 0 {
                match payload::read_text(rest) {
                    Err(e) => Err(e),
                    Ok((motd, rest)) => match payload::read_u32(rest) {
                        Err(e) => Err(e),
                        Ok((occupancy, _)) => Ok(ServerFrameView::Welcome { motd, occupancy }),
                    },
                }
            } else if variant == 1 {
                match text_payload(rest) {
                    Err(e) => Err(e),
                    Ok(reason) => Ok(ServerFrameView::Rejected { reason }),
                }
            } else if variant == 2 {
                match text_payload(rest) {
                    Err(e) => Err(e),
                    Ok(username) => Ok(ServerFrameView::Joined { username }),
                }
            } else if variant == 3 {
                match text_payload(rest) {
                    Err(e) => Err(e),
                    Ok(username) => Ok(ServerFrameView::Departed { username }),
                }
            } else if variant == 4 {
                match payload::read_text(rest) {
                    Err(e) => Err(e),
                    Ok((from, rest)) => match text_payload(rest) {
                        Err(e) => Err(e),
                        Ok(body) => Ok(ServerFrameView::Message { from, body }),
                    },
                }
            } else if variant == 5 {
                Ok(ServerFrameView::Ping)
            } else if variant == 6 {
                match text_payload(rest) {
                    Err(e) => Err(e),
                    Ok(reason) => Ok(ServerFrameView::Error { reason }),
                }
            } else {
                Err(PayloadError::Custom)
            },
        }
    }

    proof fn lemma_read_back(v: ServerFrameView, rest: Seq<u8>) {
        match v {
            ServerFrameView::Welcome { motd, occupancy } => {
                lemma_welcome_read_back(motd, occupancy, rest);
            },
            ServerFrameView::Message { from, body } => {
                lemma_message_read_back(from, body, rest);
            },
            ServerFrameView::Ping => {
                payload::lemma_u32_read_back(5, rest);
            },
            ServerFrameView::Rejected { reason } => {
                lemma_one_text_read_back(1, reason, rest);
            },
            ServerFrameView::Joined { username } => {
                lemma_one_text_read_back(2, username, rest);
            },
            ServerFrameView::Departed { username } => {
                lemma_one_text_read_back(3, username, rest);
            },
            ServerFrameView::Error { reason } => {
                lemma_one_text_read_back(6, reason, rest);
            },
        }
    }

    proof fn lemma_reads_legal(bytes: Seq<u8>) {
    }

    fn serialize(&self) -> (bytes: Vec<u8>) {
        match self {
            ServerFrame::Welcome { motd, occupancy } => {
                let mut out = payload::write_u32(0);
                out.extend_from_slice(&payload::write_text(motd));
                out.extend_from_slice(&payload::write_u32(*occupancy));
                out
            },
            ServerFrame::Rejected { reason } => write_one_text(1, reason),
            ServerFrame::Joined { username } => write_one_text(2, username),
            ServerFrame::Departed { username } => write_one_text(3, username),
            ServerFrame::Message { from, body } => {
                let mut out = payload::write_u32(4);
                out.extend_from_slice(&payload::write_text(from));
                out.extend_from_slice(&payload::write_text(body));
                out
            },
            ServerFrame::Ping => payload::write_u32(5),
            ServerFrame::Error { reason } => write_one_text(6, reason),
        }
    }

    fn deserialize(bytes: &[u8]) -> (r: Result<ServerFrame, PayloadError>) {
        let (variant, rest) = match payload::take_u32(bytes) {
            Ok(taken) => taken,
            Err(e) => return Err(e),
        };
        match variant {
            0 => match payload::take_text(rest) {
                Err(e) => Err(e),
                Ok((motd, rest)) => match payload::take_u32(rest) {
                    Err(e) => Err(e),
                    Ok((occupancy, _)) => Ok(ServerFrame::Welcome { motd, occupancy }),
                },
            },
            1 => match take_text_payload(rest) {
                Err(e) => Err(e),
                Ok(reason) => Ok(ServerFrame::Rejected { reason }),
            },
            2 => match take_text_payload(rest) {
                Err(e) => Err(e),
                Ok(username) => Ok(ServerFrame::Joined { username }),
            },
            3 => match take_text_payload(rest) {
                Err(e) => Err(e),
                Ok(username) => Ok(ServerFrame::Departed { username }),
            },
            4 => match payload::take_text(rest) {
                Err(e) => Err(e),
                Ok((from, rest)) => match take_text_payload(rest) {
                    Err(e) => Err(e),
                    Ok(body) => Ok(ServerFrame::Message { from, body }),
                },
            },
            5 => Ok(ServerFrame::Ping),
            6 => match take_text_payload(rest) {
                Err(e) => Err(e),
                Ok(reason) => Ok(ServerFrame::Error { reason }),
            },
            _ => Err(PayloadError::Custom),
        }
    }
}

/// Writes a variant whose only field is a string.
fn write_one_text(variant: u32, text: &str) -> (bytes: Vec<u8>)
    ensures
        bytes@ == payload::varint(variant as nat) + payload::text_bytes(text@),
{
    let mut out = payload::write_u32(variant);
    out.extend_from_slice(&payload::write_text(text));
    out
}

/// The index and the text of a variant whose only field is a string are read
/// back.
proof fn lemma_one_text_read_back(variant: u32, text: Seq<char>, rest: Seq<u8>)
    requires
        utf8::encode_utf8(text).len() <= usize::MAX,
    ensures
        ({
            let bytes = payload::varint(variant as nat) + payload::text_bytes(text) + rest;
            &&& payload::read_u32(bytes) == Ok::<_, PayloadError>(
                (variant, payload::text_bytes(text) + rest),
            )
            &&& text_payload(payload::text_bytes(text) + rest) == Ok::<_, PayloadError>(text)
        }),
{
    payload::lemma_text_read_back(text, rest);
    payload::lemma_u32_read_back(variant, payload::text_bytes(text) + rest);
    assert(payload::varint(variant as nat) + payload::text_bytes(text) + rest =~= payload::varint(
        variant as nat,
    ) + (payload::text_bytes(text) + rest));
}

/// The fields of a `Welcome` are read back.
proof fn lemma_welcome_read_back(motd: Seq<char>, occupancy: u32, rest: Seq<u8>)
    requires
        utf8::encode_utf8(motd).len() <= usize::MAX,
    ensures
        ({
            let text = payload::text_bytes(motd);
            let number = payload::varint(occupancy as nat);
            let bytes = payload::varint(0) + text + number + rest;
            &&& payload::read_u32(bytes) == Ok::<_, PayloadError>((0u32, text + (number + rest)))
            &&& payload::read_text(text + (number + rest)) == Ok::<_, PayloadError>(
                (motd, number + rest),
            )
            &&& payload::read_u32(number + rest) == Ok::<_, PayloadError>((occupancy, rest))
        }),
{
    let text = payload::text_bytes(motd);
    let number = payload::varint(occupancy as nat);
    payload::lemma_u32_read_back(occupancy, rest);
    payload::lemma_text_read_back(motd, number + rest);
    payload::lemma_u32_read_back(0, text + (number + rest));
    assert(payload::varint(0) + text + number + rest =~= payload::varint(0) + (text + (number
        + rest)));
}

/// The fields of a `Message` are read back.
proof fn lemma_message_read_back(from: Seq<char>, body: Seq<char>, rest: Seq<u8>)
    requires
        utf8::encode_utf8(from).len() <= usize::MAX,
        utf8::encode_utf8(body).len() <= usize::MAX,
    ensures
        ({
            let sender = payload::text_bytes(from);
            let text = payload::text_bytes(body);
            let bytes = payload::varint(4) + sender + text + rest;
            &&& payload::read_u32(bytes) == Ok::<_, PayloadError>((4u32, sender + (text + rest)))
            &&& payload::read_text(sender + (text + rest)) == Ok::<_, PayloadError>(
                (from, text + rest),
            )
            &&& text_payload(text + rest) == Ok::<_, PayloadError>(body)
        }),
{
    let sender = payload::text_bytes(from);
    let text = payload::text_bytes(body);
    payload::lemma_text_read_back(body, rest);
    payload::lemma_text_read_back(from, text + rest);
    payload::lemma_u32_read_back(4, sender + (text + rest));
    assert(payload::varint(4) + sender + text + rest =~= payload::varint(4) + (sender + (text
        + rest)));
}

impl Payload for UserName {
    open spec fn legal(v: Seq<char>) -> bool {
        validated::valid_username(v)
    }

    open spec fn encoding(v: Seq<char>) -> Seq<u8> {
        payload::text_bytes(v)
    }

    open spec fn decoding(bytes: Seq<u8>) -> Result<Seq<char>, PayloadError> {
        match text_payload(bytes) {
            Ok(s) => if validated::valid_username(s) {
                Ok(s)
            } else {
                Err(PayloadError::Custom)
            },
            Err(e) => Err(e),
        }
    }

    proof fn lemma_read_back(v: Seq<char>, rest: Seq<u8>) {
        payload::lemma_text_read_back(v, rest);
    }

    proof fn lemma_reads_legal(bytes: Seq<u8>) {
    }

    fn serialize(&self) -> (bytes: Vec<u8>) {
        payload::write_text(self.as_str())
    }

    fn deserialize(bytes: &[u8]) -> (r: Result<UserName, PayloadError>) {
        match take_text_payload(bytes) {
            Ok(s) => match UserName::new(&s) {
                Ok(name) => Ok(name),
                Err(_) => Err(PayloadError::Custom),
            },
            Err(e) => Err(e),
        }
    }
}

impl Payload for MessageBody {
    open spec fn legal(v: Seq<char>) -> bool {
        validated::valid_body(v)
    }

    open spec fn encoding(v: Seq<char>) -> Seq<u8> {
        payload::text_bytes(v)
    }

    open spec fn decoding(bytes: Seq<u8>) -> Result<Seq<char>, PayloadError> {
        match text_payload(bytes) {
            Ok(s) => if validated::valid_body(s) {
                Ok(s)
            } else {
                Err(PayloadError::Custom)
            },
            Err(e) => Err(e),
        }
    }

    proof fn lemma_read_back(v: Seq<char>, rest: Seq<u8>) {
        payload::lemma_text_read_back(v, rest);
    }

    proof fn lemma_reads_legal(bytes: Seq<u8>) {
    }

    fn serialize(&self) -> (bytes: Vec<u8>) {
        payload::write_text(self.as_str())
    }

    fn deserialize(bytes: &[u8]) -> (r: Result<MessageBody, PayloadError>) {
        match take_text_payload(bytes) {
            Ok(s) => match MessageBody::new(&s) {
                Ok(body) => Ok(body),
                Err(_) => Err(PayloadError::Custom),
            },
            Err(e) => Err(e),
        }
    }
}

/// No payload is read as a username, or as a message body, that breaks the
/// rules.
pub proof fn law_only_legal_text_is_read(bytes: Seq<u8>)
    ensures
        UserName::decoding(bytes) matches Ok(name) ==> validated::valid_username(name),
        MessageBody::decoding(bytes) matches Ok(body) ==> validated::valid_body(body),
{
}

// ---------------------------------------------------------------------------
// Sizes
// ---------------------------------------------------------------------------

/// The payload of `v` is no larger than a frame may be.
pub open spec fn fits<P: Payload>(v: P::V) -> bool {
    P::encoding(v).len() <= MAX_FRAME_BYTES
}

/// A frame whose only field is a text of at most a thousand bytes fits.
pub proof fn lemma_short_text_fits(s: Seq<char>)
    requires
        utf8::encode_utf8(s).len() <= 1000,
    ensures
        fits::<ServerFrame>(ServerFrameView::Rejected { reason: s }),
        fits::<ServerFrame>(ServerFrameView::Joined { username: s }),
        fits::<ServerFrame>(ServerFrameView::Departed { username: s }),
        fits::<ServerFrame>(ServerFrameView::Error { reason: s }),
{
    payload::lemma_u32_read_back(1, Seq::empty());
    payload::lemma_u32_read_back(2, Seq::empty());
    payload::lemma_u32_read_back(3, Seq::empty());
    payload::lemma_u32_read_back(6, Seq::empty());
    payload::lemma_text_len(s);
}

/// A welcome with a banner of at most a thousand bytes fits.
pub proof fn lemma_short_welcome_fits(motd: Seq<char>, occupancy: u32)
    requires
        utf8::encode_utf8(motd).len() <= 1000,
    ensures
        fits::<ServerFrame>(ServerFrameView::Welcome { motd, occupancy }),
{
    payload::lemma_u32_read_back(0, Seq::empty());
    payload::lemma_u32_read_back(occupancy, Seq::empty());
    payload::lemma_text_len(motd);
}

/// A chat message from a legal username with a legal body fits in a frame: its
/// payload takes less than five kibibytes.
pub proof fn law_largest_message_fits(from: Seq<char>, body: Seq<char>)
    requires
        validated::valid_username(from),
        validated::valid_body(body),
    ensures
        ServerFrame::encoding(ServerFrameView::Message { from, body }).len() < 5 * 1024,
        fits::<ServerFrame>(ServerFrameView::Message { from, body }),
{
    payload::lemma_u32_read_back(4, Seq::empty());
    payload::lemma_text_len(from);
    payload::lemma_text_len(body);
}

// ---------------------------------------------------------------------------
// What the payloads look like
// ---------------------------------------------------------------------------

/// The view of a frame is the frame, field by field.
pub proof fn law_frame_views(c: ClientFrame, s: ServerFrame)
    ensures
        match c {
            ClientFrame::Hello { version, username } => c@ == (ClientFrameView::Hello {
                version,
                username: username@,
            }),
            ClientFrame::Send { body } => c@ == (ClientFrameView::Send { body: body@ }),
            ClientFrame::Pong => c@ == ClientFrameView::Pong,
            ClientFrame::Leave => c@ == ClientFrameView::Leave,
        },
        match s {
            ServerFrame::Welcome { motd, occupancy } => s@ == (ServerFrameView::Welcome {
                motd: motd@,
                occupancy,
            }),
            ServerFrame::Rejected { reason } => s@ == (ServerFrameView::Rejected {
                reason: reason@,
            }),
            ServerFrame::Joined { username } => s@ == (ServerFrameView::Joined {
                username: username@,
            }),
            ServerFrame::Departed { username } => s@ == (ServerFrameView::Departed {
                username: username@,
            }),
            ServerFrame::Message { from, body } => s@ == (ServerFrameView::Message {
                from: from@,
                body: body@,
            }),
            ServerFrame::Ping => s@ == ServerFrameView::Ping,
            ServerFrame::Error { reason } => s@ == (ServerFrameView::Error { reason: reason@ }),
        },
{
}

/// On the wire, the frames of a client are numbered 0 to 3 in the order of
/// their declaration, and the fields follow the number.
pub proof fn law_client_payload_layout(version: u8, text: Seq<char>)
    ensures
        ClientFrame::encoding((ClientFrameView::Hello { version, username: text })) == seq![
            0u8,
            version,
        ] + payload::text_bytes(text),
        ClientFrame::encoding((ClientFrameView::Send { body: text })) == seq![1u8]
            + payload::text_bytes(text),
        ClientFrame::encoding(ClientFrameView::Pong) == seq![2u8],
        ClientFrame::encoding(ClientFrameView::Leave) == seq![3u8],
{
    assert(payload::varint(0) + seq![version] =~= seq![0u8, version]);
}

/// On the wire, the frames of the server are numbered 0 to 6 in the order of
/// their declaration, and the fields follow the number.
pub proof fn law_server_payload_layout(text: Seq<char>, body: Seq<char>, occupancy: u32)
    ensures
        ServerFrame::encoding((ServerFrameView::Welcome { motd: text, occupancy })) == seq![0u8]
            + payload::text_bytes(text) + payload::varint(occupancy as nat),
        ServerFrame::encoding((ServerFrameView::Rejected { reason: text })) == seq![1u8]
            + payload::text_bytes(text),
        ServerFrame::encoding((ServerFrameView::Joined { username: text })) == seq![2u8]
            + payload::text_bytes(text),
        ServerFrame::encoding((ServerFrameView::Departed { username: text })) == seq![3u8]
            + payload::text_bytes(text),
        ServerFrame::encoding((ServerFrameView::Message { from: text, body })) == seq![4u8]
            + payload::text_bytes(text) + payload::text_bytes(body),
        ServerFrame::encoding(ServerFrameView::Ping) == seq![5u8],
        ServerFrame::encoding((ServerFrameView::Error { reason: text })) == seq![6u8]
            + payload::text_bytes(text),
{
}

/// A username, and a message body, travels as its text.
pub proof fn law_text_payload_layout(text: Seq<char>)
    ensures
        UserName::encoding(text) == payload::text_bytes(text),
        MessageBody::encoding(text) == payload::text_bytes(text),
{
}

/// Different frames have different payloads, and no payload is the start of
/// another one.
pub proof fn law_payloads_are_told_apart(
    a: ServerFrameView,
    more: Seq<u8>,
    b: ServerFrameView,
    rest: Seq<u8>,
)
    requires
        ServerFrame::encoding(a).len() <= usize::MAX,
        ServerFrame::encoding(b).len() <= usize::MAX,
        ServerFrame::encoding(a) + more == ServerFrame::encoding(b) + rest,
    ensures
        a == b,
{
    ServerFrame::lemma_read_back(a, more);
    ServerFrame::lemma_read_back(b, rest);
}

/// A payload of a client is read field by field: the first field that cannot
/// be read is the error, and a number that no frame has is one too. Every
/// other payload is a frame.
pub proof fn law_client_payload_errors(bytes: Seq<u8>)
    ensures
        match payload::read_u32(bytes) {
            Err(e) => ClientFrame::decoding(bytes) == Err::<ClientFrameView, _>(e),
            Ok((number, rest)) => {
                &&& number > 3 ==> ClientFrame::decoding(bytes) == Err::<ClientFrameView, _>(
                    PayloadError::Custom,
                )
                &&& number == 3 ==> ClientFrame::decoding(bytes) == Ok::<_, PayloadError>(
                    ClientFrameView::Leave,
                )
                &&& number == 2 ==> ClientFrame::decoding(bytes) == Ok::<_, PayloadError>(
                    ClientFrameView::Pong,
                )
                &&& number == 1 ==> match payload::read_text(rest) {
                    Err(e) => ClientFrame::decoding(bytes) == Err::<ClientFrameView, _>(e),
                    Ok((body, _)) => ClientFrame::decoding(bytes) == Ok::<_, PayloadError>(
                        (ClientFrameView::Send { body }),
                    ),
                }
                &&& number == 0 ==> match payload::read_u8(rest) {
                    Err(e) => ClientFrame::decoding(bytes) == Err::<ClientFrameView, _>(e),
                    Ok((version, tail)) => match payload::read_text(tail) {
                        Err(e) => ClientFrame::decoding(bytes) == Err::<ClientFrameView, _>(e),
                        Ok((username, _)) => ClientFrame::decoding(bytes) == Ok::<_, PayloadError>(
                            (ClientFrameView::Hello { version, username }),
                        ),
                    },
                }
            },
        },
{
}

/// A payload of the server whose number no frame has is an error, and so is
/// one whose number or first text cannot be read. A frame of one text is read
/// as soon as its text can be.
pub proof fn law_server_payload_errors(bytes: Seq<u8>)
    ensures
        match payload::read_u32(bytes) {
            Err(e) => ServerFrame::decoding(bytes) == Err::<ServerFrameView, _>(e),
            Ok((number, rest)) => {
                &&& number > 6 ==> ServerFrame::decoding(bytes) == Err::<ServerFrameView, _>(
                    PayloadError::Custom,
                )
                &&& number == 5 ==> ServerFrame::decoding(bytes) == Ok::<_, PayloadError>(
                    ServerFrameView::Ping,
                )
                &&& number < 5 || number == 6 ==> match payload::read_text(rest) {
                    Err(e) => ServerFrame::decoding(bytes) == Err::<ServerFrameView, _>(e),
                    Ok((text, tail)) => {
                        &&& number == 0 ==> match payload::read_u32(tail) {
                            Err(e) => ServerFrame::decoding(bytes) == Err::<ServerFrameView, _>(e),
                            Ok((occupancy, _)) => ServerFrame::decoding(bytes) == Ok::<
                                _,
                                PayloadError,
                            >((ServerFrameView::Welcome { motd: text, occupancy })),
                        }
                        &&& number == 1 ==> ServerFrame::decoding(bytes) == Ok::<_, PayloadError>(
                            (ServerFrameView::Rejected { reason: text }),
                        )
                        &&& number == 2 ==> ServerFrame::decoding(bytes) == Ok::<_, PayloadError>(
                            (ServerFrameView::Joined { username: text }),
                        )
                        &&& number == 3 ==> ServerFrame::decoding(bytes) == Ok::<_, PayloadError>(
                            (ServerFrameView::Departed { username: text }),
                        )
                        &&& number == 4 ==> match payload::read_text(tail) {
                            Err(e) => ServerFrame::decoding(bytes) == Err::<ServerFrameView, _>(e),
                            Ok((body, _)) => ServerFrame::decoding(bytes) == Ok::<_, PayloadError>(
                                (ServerFrameView::Message { from: text, body }),
                            ),
                        }
                        &&& number == 6 ==> ServerFrame::decoding(bytes) == Ok::<_, PayloadError>(
                            (ServerFrameView::Error { reason: text }),
                        )
                    },
                }
            },
        },
{
}

/// A payload that is one text is read as a username if and only if the text is
/// a legal one, and as a message body likewise; illegal text is an error of
/// its own, and what cannot be read at all keeps its error.
pub proof fn law_text_payload_errors(bytes: Seq<u8>)
    ensures
        match payload::read_text(bytes) {
            Err(e) => {
                &&& UserName::decoding(bytes) == Err::<Seq<char>, _>(e)
                &&& MessageBody::decoding(bytes) == Err::<Seq<char>, _>(e)
            },
            Ok((text, _)) => {
                &&& UserName::decoding(bytes) == if validated::valid_username(text) {
                    Ok::<_, PayloadError>(text)
                } else {
                    Err::<Seq<char>, _>(PayloadError::Custom)
                }
                &&& MessageBody::decoding(bytes) == if validated::valid_body(text) {
                    Ok::<_, PayloadError>(text)
                } else {
                    Err::<Seq<char>, _>(PayloadError::Custom)
                }
            },
        },
{
}

} // verus!
